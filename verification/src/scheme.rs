use crate::compositor::{grow_total, jobs_view, redraw_jobs, view_opt, best_from, best_screen, boxed, screen_sane, spec_schedule, spec_window_area, Compositor, CursorUpdate, SCREEN_BOUND};
use crate::color::Color;
use crate::config::Config;
use crate::protocol::str_chars;
use crate::event::{bit, decode_event, spec_decode, InputEvent, MouseRelativeEvent, EVENT_MOUSE_RELATIVE, ButtonEvent, ClipboardAction, ClipboardEvent, Event, KeyEvent, TextInputEvent, FocusEvent, HoverEvent, MouseEvent, MoveEvent, QuitEvent, ResizeEvent, EVENT_BUTTON, EVENT_CLIPBOARD, EVENT_FOCUS, EVENT_KEY, EVENT_TEXT_INPUT, EVENT_HOVER, EVENT_MOUSE, EVENT_MOVE, EVENT_QUIT, EVENT_RESIZE};
use crate::rect::{spec_max, spec_min, Rect, RectView};
use crate::window::{kept_part, Properties, flag_set, ORBITAL_FLAG_FULLSCREEN, ORBITAL_FLAG_MAXIMIZED, queue_event, queue_event_fits, zeroed, Window, WindowView, ORBITAL_FLAG_RESIZABLE, PAGE_SIZE, TITLE_HEIGHT};
use crate::image::{aligned_len, apply_region};
use crate::window_order::{lemma_add_window_focus, lemma_add_window_fresh, spec_add_window};
use crate::window_order::{lemma_remove_window, without, layered, tagged, lemma_make_focused, lemma_move_focused_after, spec_make_focused, spec_move_focused_after, WindowOrder, WindowZOrder, ZEntry};
use crate::event::{K_ALT, K_ALT_GR, K_BACKSLASH, K_BRACE_CLOSE, K_BRACE_OPEN, K_C, K_CTRL, K_DOWN, K_ENTER, K_F10, K_F12, K_LEFT, K_LEFT_SHIFT, K_M, K_NUM_0, K_NUM_1, K_NUM_2, K_NUM_3, K_NUM_4, K_NUM_5, K_NUM_6, K_NUM_7, K_NUM_8, K_NUM_9, K_Q, K_RIGHT, K_RIGHT_SHIFT, K_SUPER, K_TAB, K_UP, K_V, K_VOLUME_DOWN, K_VOLUME_TOGGLE, K_VOLUME_UP, K_X};
use std::collections::BTreeMap;
use std::rc::Rc;
use vstd::prelude::*;

verus! {

/// Where a window is tiled on its screen.
#[derive(Clone, Copy, Debug, PartialEq, Eq, Structural)]
pub enum TilePosition {
    LeftHalf,
    TopHalf,
    RightHalf,
    BottomHalf,
    Maximized,
    FullScreen,
}

/// The cursor images, one for each thing the pointer can do.
#[derive(Clone, Copy, Debug, PartialEq, Eq, Structural)]
pub enum CursorKind {
    Invisible,
    LeftPtr,
    BottomLeftCorner,
    BottomRightCorner,
    BottomSide,
    LeftSide,
    RightSide,
}

impl CursorKind {
    /// The place of the kind in the table of cursor images.
    pub open spec fn index(self) -> int {
        match self {
            CursorKind::Invisible => 0,
            CursorKind::LeftPtr => 1,
            CursorKind::BottomLeftCorner => 2,
            CursorKind::BottomRightCorner => 3,
            CursorKind::BottomSide => 4,
            CursorKind::LeftSide => 5,
            CursorKind::RightSide => 6,
        }
    }

    pub fn to_index(&self) -> (i: u8)
        ensures
            i == self.index(),
    {
        match self {
            CursorKind::Invisible => 0,
            CursorKind::LeftPtr => 1,
            CursorKind::BottomLeftCorner => 2,
            CursorKind::BottomRightCorner => 3,
            CursorKind::BottomSide => 4,
            CursorKind::LeftSide => 5,
            CursorKind::RightSide => 6,
        }
    }

    /// The hot spot of a cursor image of `w` by `h` pixels.
    pub open spec fn hot_spot(self, w: int, h: int) -> (int, int) {
        match self {
            CursorKind::Invisible => (0, 0),
            CursorKind::LeftPtr => (0, 0),
            CursorKind::BottomLeftCorner => (0, h),
            CursorKind::BottomRightCorner => (w, h),
            CursorKind::BottomSide => (w / 2, h),
            CursorKind::LeftSide => (0, h / 2),
            CursorKind::RightSide => (w, h / 2),
        }
    }
}

/// What the pointer is dragging: a window by its title, or one of its edges,
/// with the offsets taken when the drag began.
#[derive(Clone, Copy, Debug, PartialEq, Eq, Structural)]
pub enum DragMode {
    Idle,
    Title(usize, i32, i32),
    TopBorder(usize, i32, i32),
    LeftBorder(usize, i32, i32),
    RightBorder(usize, i32),
    BottomBorder(usize, i32),
    BottomLeftBorder(usize, i32, i32, i32),
    BottomRightBorder(usize, i32, i32),
}

/// A change of the audio volume asked for from the keyboard.
#[derive(Clone, Copy, Debug, PartialEq, Eq, Structural)]
pub enum Volume {
    Down,
    Up,
    Toggle,
}

/// How a window asks to be dragged.
#[derive(Clone, Copy, Debug, PartialEq, Eq, Structural)]
pub enum WindowDragKind {
    Stop,
    Move,
    ResizeTop,
    ResizeLeft,
    ResizeRight,
    ResizeBottom,
}

/// What a key press leaves for the caller to carry out.
#[derive(Clone, Copy, Debug, PartialEq, Eq, Structural)]
pub enum KeyAction {
    Nothing,
    /// Read the volume, apply the change, write it back; then show the volume
    /// overlay if `show`.
    Volume { change: Volume, show: bool },
    /// Show or hide the outline of redrawn areas.
    ToggleDamageBorder,
    /// Show or hide the frame rate.
    ToggleFps,
}

pub const GRID_SIZE: i32 = 16;

pub const SHIFT_LEFT_MODIFIER: u8 = 0x01;
pub const SHIFT_RIGHT_MODIFIER: u8 = 0x02;
pub const SHIFT_ANY_MODIFIER: u8 = 0x04;
pub const CONTROL_MODIFIER: u8 = 0x08;
pub const ALT_MODIFIER: u8 = 0x10;
pub const ALT_GR_MODIFIER: u8 = 0x20;
pub const ALT_ANY_MODIFIER: u8 = 0x40;
pub const SUPER_MODIFIER: u8 = 0x80;

/// The pointer stays within this distance of the origin: with a drag offset
/// added, a pointer position still fits in `i32`, and the cursor image around
/// it stays in the box whose redraw rectangles the compositor can join.
pub const POS_BOUND: i32 = 0x2000_0000;

/// Screens start within this distance of the origin.
pub const SCREEN_POS_BOUND: i32 = 0x0040_0000;

/// The largest window width or height: a window's place plus its size and
/// borders stays in the box whose redraw rectangles the compositor can join,
/// the middle of a window is a place the pointer can be, and a window moved
/// to show only a sliver of itself stays within [`WINDOW_BOUND`].
pub const SIZE_LIMIT: i32 = 0x1500_0000;

/// The largest display scale.
pub const SCALE_LIMIT: i32 = 8;

/// The largest cursor image width or height.
pub const CURSOR_LIMIT: i32 = 0x400;

/// The pointer moves this far for a simulated step at first.
pub const CURSOR_SIMULATE_SPEED: i32 = 32;

/// Windows stay within this distance of the origin, so that the rectangles
/// of a window, its title bar and its borders fit in `i32` and in the box
/// whose redraw rectangles the compositor can join.
pub const WINDOW_BOUND: i32 = 0x1500_0000;

pub open spec fn in_win(v: int) -> bool {
    -WINDOW_BOUND <= v <= WINDOW_BOUND
}

/// A window size the server can hold: each side within [`SIZE_LIMIT`], the
/// number of pixels within `i32`, and the bytes of the page-aligned image
/// within `usize`.
pub open spec fn size_fits(w: int, h: int) -> bool {
    &&& 0 <= w <= SIZE_LIMIT
    &&& 0 <= h <= SIZE_LIMIT
    &&& w * h <= i32::MAX
    &&& w * h * 4 + PAGE_SIZE - 1 <= usize::MAX
}

/// Whether the server can hold a window of `w` by `h` pixels.
pub fn size_fits_exec(w: i32, h: i32) -> (b: bool)
    ensures
        b == size_fits(w as int, h as int),
{
    if w < 0 || h < 0 || w > SIZE_LIMIT || h > SIZE_LIMIT {
        return false;
    }
    assert(0 <= w * h <= 0x1500_0000 * 0x1500_0000) by (nonlinear_arith)
        requires
            0 <= w <= 0x1500_0000,
            0 <= h <= 0x1500_0000,
    ;
    let p: u64 = (w as u64) * (h as u64);
    p <= 0x7FFF_FFFF && p * 4 + (PAGE_SIZE as u64) - 1 <= usize::MAX as u64
}

pub open spec fn in_pos(v: int) -> bool {
    -POS_BOUND <= v <= POS_BOUND
}

/// A window that stays within the bounds: place, size, scale and the place it
/// is restored to.
pub open spec fn placed(w: WindowView) -> bool {
    &&& in_win(w.x)
    &&& in_win(w.y)
    &&& 0 <= w.width <= SIZE_LIMIT
    &&& 0 <= w.height <= SIZE_LIMIT
    &&& 1 <= w.scale <= SCALE_LIMIT
    &&& match w.restore {
        Some((r, _)) => in_win(r.x) && in_win(r.y) && 0 <= r.w <= SIZE_LIMIT && 0 <= r.h
            <= SIZE_LIMIT,
        None => true,
    }
}

/// A screen that the scheme can place windows on.
pub open spec fn screen_placed(r: RectView) -> bool {
    &&& screen_sane(r)
    &&& r.x <= SCREEN_POS_BOUND
    &&& r.y <= SCREEN_POS_BOUND
    &&& spec_window_area(r).h >= TITLE_HEIGHT * SCALE_LIMIT
}

/// Why a request about a window is refused.
#[derive(Clone, Copy, Debug, PartialEq, Eq, Structural)]
pub enum SchemeError {
    /// No window has that id.
    NoWindow,
}

/// The whole state of the display server, as a value.
pub struct SchemeView {
    pub windows: Map<usize, WindowView>,
    pub focus: Seq<usize>,
    pub zbuffer: Seq<ZEntry>,
    pub screens: Seq<RectView>,
    pub redraws: Seq<RectView>,
    pub hw_cursor: bool,
    pub cursor_image: Option<u8>,
    pub cursor_rect: RectView,
    pub cursor_state: (int, int, int, int),
    pub cursor_updates: Seq<CursorUpdate>,
    pub cursor_sizes: Seq<(i32, i32)>,
    pub scale: int,
    pub cursor_x: int,
    pub cursor_y: int,
    pub cursor_left: bool,
    pub cursor_middle: bool,
    pub cursor_right: bool,
    pub simulate_enabled: bool,
    pub simulate_speed: int,
    pub dragging: DragMode,
    pub dragging_window_initiated: bool,
    pub modifier_state: u8,
    pub volume_value: int,
    pub volume_toggle: int,
    pub next_id: int,
    pub hover: Option<usize>,
    pub clipboard: Seq<u8>,
    pub win_tabbing: bool,
    pub volume_osd: bool,
    pub shortcuts_enabled: bool,
    pub last_popup_rect: Option<RectView>,
}

/// The display server: its windows, their order, the pointer and the
/// keyboard state, and what waits to be redrawn.
pub struct OrbitalScheme {
    compositor: Compositor,
    scale: i32,
    cursor_sizes: Vec<(i32, i32)>,
    cursor_updates: Vec<CursorUpdate>,
    cursor_x: i32,
    cursor_y: i32,
    cursor_left: bool,
    cursor_middle: bool,
    cursor_right: bool,
    cursor_simulate_enabled: bool,
    cursor_simulate_speed: i32,
    dragging: DragMode,
    dragging_window_initiated: bool,
    modifier_state: u8,
    volume_value: i32,
    volume_toggle: i32,
    next_id: isize,
    hover: Option<usize>,
    order: WindowOrder,
    windows: BTreeMap<usize, Window>,
    clipboard: Vec<u8>,
    config: Rc<Config>,
    win_tabbing: bool,
    volume_osd: bool,
    shortcuts_enabled: bool,
    last_popup_rect: Option<Rect>,
}

/// The views of the windows of a map.
pub open spec fn windows_view(m: Map<usize, Window>) -> Map<usize, WindowView> {
    m.map_values(|w: Window| w@)
}

impl View for OrbitalScheme {
    type V = SchemeView;

    closed spec fn view(&self) -> SchemeView {
        SchemeView {
            windows: windows_view(self.windows@),
            focus: self.order.focus(),
            zbuffer: self.order.zbuffer(),
            screens: self.compositor.screens_view(),
            redraws: self.compositor.redraws_view(),
            hw_cursor: self.compositor.spec_hw_cursor(),
            cursor_image: self.compositor.spec_cursor(),
            cursor_rect: self.compositor.spec_cursor_rect(),
            cursor_state: self.compositor.cursor_state(),
            cursor_updates: self.cursor_updates@,
            cursor_sizes: self.cursor_sizes@,
            scale: self.scale as int,
            cursor_x: self.cursor_x as int,
            cursor_y: self.cursor_y as int,
            cursor_left: self.cursor_left,
            cursor_middle: self.cursor_middle,
            cursor_right: self.cursor_right,
            simulate_enabled: self.cursor_simulate_enabled,
            simulate_speed: self.cursor_simulate_speed as int,
            dragging: self.dragging,
            dragging_window_initiated: self.dragging_window_initiated,
            modifier_state: self.modifier_state,
            volume_value: self.volume_value as int,
            volume_toggle: self.volume_toggle as int,
            next_id: self.next_id as int,
            hover: self.hover,
            clipboard: self.clipboard@,
            win_tabbing: self.win_tabbing,
            volume_osd: self.volume_osd,
            shortcuts_enabled: self.shortcuts_enabled,
            last_popup_rect: match self.last_popup_rect {
                Some(r) => Some(r@),
                None => None,
            },
        }
    }
}

/// A state the scheme can be in: screens and windows within bounds, every
/// window in the focus order once and only it, and fresh ids ahead.
pub open spec fn scheme_wf(s: SchemeView) -> bool {
    &&& s.screens.len() > 0
    &&& forall|i: int| 0 <= i < s.screens.len() ==> screen_placed(#[trigger] s.screens[i])
    &&& 1 <= s.scale <= SCALE_LIMIT
    &&& s.cursor_sizes.len() == 7
    &&& forall|i: int|
        0 <= i < 7 ==> 0 <= (#[trigger] s.cursor_sizes[i]).0 <= CURSOR_LIMIT && 0
            <= s.cursor_sizes[i].1 <= CURSOR_LIMIT
    &&& in_pos(s.cursor_x)
    &&& in_pos(s.cursor_y)
    &&& 1 <= s.simulate_speed <= 256
    &&& 1 <= s.next_id < isize::MAX
    &&& s.focus.no_duplicates()
    &&& forall|id: usize| s.windows.contains_key(id) <==> s.focus.contains(id)
    &&& forall|id: usize| #[trigger] s.windows.contains_key(id) ==> id < s.next_id
    &&& forall|id: usize| #[trigger] s.windows.contains_key(id) ==> placed(s.windows[id])
    &&& s.clipboard.len() <= i64::MAX
    &&& drag_bounded(s.dragging)
    &&& drag_window(s.dragging) < s.next_id
    &&& match s.last_popup_rect {
        Some(r) => boxed(r),
        None => true,
    }
}

/// `s` with the pending redraws replaced.
pub open spec fn with_redraws(s: SchemeView, redraws: Seq<RectView>) -> SchemeView {
    SchemeView { redraws, ..s }
}

/// The redraws after the title bar and then the area of `w` are scheduled.
pub open spec fn schedule_window(redraws: Seq<RectView>, w: WindowView) -> Seq<RectView> {
    spec_schedule(spec_schedule(redraws, w.title_rect()), w.rect())
}

/// `s` after `e` arrives at window `id`, if there is one.
pub open spec fn spec_push_event(s: SchemeView, id: usize, e: Event) -> SchemeView {
    if s.windows.contains_key(id) {
        SchemeView {
            windows: s.windows.insert(
                id,
                WindowView { events: queue_event(s.windows[id].events, e), ..s.windows[id] },
            ),
            ..s
        }
    } else {
        s
    }
}

/// `s` after window `id`, if there is one, is told that it gained or lost the
/// focus; its title bar and area are redrawn.
pub open spec fn spec_focus(s: SchemeView, id: usize, focused: bool) -> SchemeView {
    if s.windows.contains_key(id) {
        let w = s.windows[id];
        let w2 = WindowView {
            events: queue_event(w.events, Event { code: EVENT_FOCUS, a: bit(focused), b: 0 }),
            ..w
        };
        SchemeView {
            windows: s.windows.insert(id, w2),
            redraws: schedule_window(schedule_window(s.redraws, w), w2),
            ..s
        }
    } else {
        s
    }
}

/// `s` after the pointer moves to `(x, y)` showing the cursor of `kind`: a
/// software cursor has its old and new places redrawn, a hardware cursor is
/// moved, after its image is loaded if it or its hot spot changed.
pub open spec fn spec_update_cursor(s: SchemeView, x: int, y: int, kind: CursorKind) -> SchemeView {
    let (w, h) = s.cursor_sizes[kind.index()];
    let (hx, hy) = kind.hot_spot(w as int, h as int);
    let rect = RectView { x: x - hx, y: y - hy, w: w as int, h: h as int };
    let image = kind.index() as u8;
    let same = s.cursor_image == Some(image) && s.cursor_state.2 == hx && s.cursor_state.3 == hy;
    SchemeView {
        cursor_x: x,
        cursor_y: y,
        cursor_image: Some(image),
        cursor_rect: rect,
        cursor_state: (x, y, hx, hy),
        redraws: if s.hw_cursor {
            s.redraws
        } else {
            spec_schedule(spec_schedule(s.redraws, s.cursor_rect), rect)
        },
        cursor_updates: if !s.hw_cursor {
            s.cursor_updates
        } else if same {
            s.cursor_updates.push(CursorUpdate::Move { x: x as i32, y: y as i32 })
        } else {
            s.cursor_updates.push(
                CursorUpdate::SetAndMove { hot_x: hx as i32, hot_y: hy as i32, x: x as i32, y: y as i32 },
            )
        },
        ..s
    }
}


/// Offsets kept by a drag are within this distance of zero: a pointer
/// position minus an offset still fits in `i32`.
pub const DRAG_BOUND: i32 = 0x4A00_0000;

pub open spec fn in_drag(v: int) -> bool {
    -DRAG_BOUND <= v <= DRAG_BOUND
}

/// The offsets a drag keeps are within bounds.
pub open spec fn drag_bounded(d: DragMode) -> bool {
    match d {
        DragMode::Idle => true,
        DragMode::Title(_, a, b) => in_drag(a as int) && in_drag(b as int),
        DragMode::TopBorder(_, a, b) => in_drag(a as int) && in_drag(b as int),
        DragMode::LeftBorder(_, a, b) => in_drag(a as int) && in_drag(b as int),
        DragMode::RightBorder(_, a) => in_drag(a as int),
        DragMode::BottomBorder(_, a) => in_drag(a as int),
        DragMode::BottomLeftBorder(_, a, b, c) => in_drag(a as int) && in_drag(b as int) && in_drag(
            c as int,
        ),
        DragMode::BottomRightBorder(_, a, b) => in_drag(a as int) && in_drag(b as int),
    }
}

/// The window a drag concerns; 0 for no drag.
pub open spec fn drag_window(d: DragMode) -> int {
    match d {
        DragMode::Idle => 0,
        DragMode::Title(id, _, _) => id as int,
        DragMode::TopBorder(id, _, _) => id as int,
        DragMode::LeftBorder(id, _, _) => id as int,
        DragMode::RightBorder(id, _) => id as int,
        DragMode::BottomBorder(id, _) => id as int,
        DragMode::BottomLeftBorder(id, _, _, _) => id as int,
        DragMode::BottomRightBorder(id, _, _) => id as int,
    }
}

pub open spec fn move_event(x: int, y: int) -> Event {
    Event { code: EVENT_MOVE, a: x as i64, b: y as i64 }
}

pub open spec fn resize_event(w: int, h: int) -> Event {
    Event { code: EVENT_RESIZE, a: w as i64, b: h as i64 }
}

pub open spec fn hover_event(entered: bool) -> Event {
    Event { code: EVENT_HOVER, a: bit(entered), b: 0 }
}

/// The window moved to `(x, y)` and told so.
pub open spec fn moved(w: WindowView, x: int, y: int) -> WindowView {
    WindowView { x, y, events: queue_event(w.events, move_event(x, y)), ..w }
}

/// The window asked to take the size `width` by `height`.
pub open spec fn resize_asked(w: WindowView, width: int, height: int) -> WindowView {
    WindowView { events: queue_event(w.events, resize_event(width, height)), ..w }
}

/// `s` after window `id` becomes `w2`; its title bar and area are redrawn
/// before and after.
pub open spec fn spec_update_window(s: SchemeView, id: usize, w2: WindowView) -> SchemeView {
    SchemeView {
        windows: s.windows.insert(id, w2),
        redraws: schedule_window(schedule_window(s.redraws, s.windows[id]), w2),
        ..s
    }
}

/// The cursor for a point on the resize borders of `w`, if it is on them.
pub open spec fn border_cursor(w: WindowView, px: int, py: int) -> Option<CursorKind> {
    let l = w.left_border_rect().contains_point(px, py);
    let r = w.right_border_rect().contains_point(px, py);
    let b = w.bottom_border_rect().contains_point(px, py);
    if l && !r && !b {
        Some(CursorKind::LeftSide)
    } else if !l && r && !b {
        Some(CursorKind::RightSide)
    } else if !l && !r && b {
        Some(CursorKind::BottomSide)
    } else if l && !r && b {
        Some(CursorKind::BottomLeftCorner)
    } else if !l && r && b {
        Some(CursorKind::BottomRightCorner)
    } else {
        None
    }
}

/// The windows from front to back.
pub open spec fn front_to_back(s: SchemeView) -> Seq<usize> {
    s.zbuffer.map_values(|e: ZEntry| e.0)
}

/// The pointer at `(x, y)`, no drag going on: the first window from the front
/// under it is hovered, told that it is entered if it was not hovered, and,
/// unless the super key is held, given the position relative to itself; a
/// title bar stops the search; a resize border gives its cursor. The result is
/// the cursor, the hovered window and the state.
pub open spec fn hover_walk(s: SchemeView, ids: Seq<usize>, x: int, y: int) -> (CursorKind, Option<usize>, SchemeView)
    decreases ids.len(),
{
    if ids.len() == 0 {
        (CursorKind::LeftPtr, None, s)
    } else {
        let id = ids[0];
        if !s.windows.contains_key(id) {
            hover_walk(s, ids.drop_first(), x, y)
        } else {
            let w = s.windows[id];
            if w.rect().contains_point(x, y) {
                let cursor = if w.mouse_cursor {
                    CursorKind::LeftPtr
                } else {
                    CursorKind::Invisible
                };
                let s1 = if s.hover != Some(id) {
                    spec_push_event(s, id, hover_event(true))
                } else {
                    s
                };
                let s2 = if s.modifier_state & SUPER_MODIFIER == 0 {
                    spec_push_event(s1, id, Event { code: EVENT_MOUSE, a: (x - w.x) as i64, b: (y - w.y) as i64 })
                } else {
                    s1
                };
                (cursor, Some(id), s2)
            } else if w.title_rect().contains_point(x, y) {
                (CursorKind::LeftPtr, None, s)
            } else {
                match border_cursor(w, s.cursor_x, s.cursor_y) {
                    Some(k) => (k, None, s),
                    None => hover_walk(s, ids.drop_first(), x, y),
                }
            }
        }
    }
}

/// `s` with the drag ended, when its window is gone.
pub open spec fn drag_gone(s: SchemeView) -> (CursorKind, SchemeView) {
    (CursorKind::LeftPtr, SchemeView { dragging: DragMode::Idle, ..s })
}

/// The drag of window `id` by its title follows the pointer to `(x, y)`.
pub open spec fn spec_drag_title(s: SchemeView, id: usize, dx: i32, dy: i32, x: i32, y: i32) -> (CursorKind, SchemeView) {
    if !s.windows.contains_key(id) {
        drag_gone(s)
    } else if dx != x || dy != y {
        let w = s.windows[id];
        let s1 = spec_update_window(s, id, moved(w, w.x + x - dx, w.y + y - dy));
        (CursorKind::LeftPtr, SchemeView { dragging: DragMode::Title(id, x, y), ..s1 })
    } else {
        (CursorKind::LeftPtr, s)
    }
}

/// The drag of the top edge of window `id` follows the pointer to `y`: the
/// window moves to keep its bottom in place and is asked to resize.
pub open spec fn spec_drag_top(s: SchemeView, id: usize, off_y: i32, bottom_y: i32, y: i32) -> (CursorKind, SchemeView) {
    if !s.windows.contains_key(id) {
        drag_gone(s)
    } else {
        let w = s.windows[id];
        let ny = y - off_y;
        let h = bottom_y - ny;
        if h > 0 {
            let s1 = if ny != w.y {
                spec_update_window(s, id, moved(w, w.x, ny))
            } else {
                s
            };
            let w1 = s1.windows[id];
            let s2 = if h != w1.height {
                spec_update_window(s1, id, resize_asked(w1, w1.width, h))
            } else {
                s1
            };
            (CursorKind::BottomSide, s2)
        } else {
            (CursorKind::BottomSide, s)
        }
    }
}

/// The drag of the left edge of window `id` follows the pointer to `x`.
pub open spec fn spec_drag_left(s: SchemeView, id: usize, off_x: i32, right_x: i32, x: i32) -> (CursorKind, SchemeView) {
    if !s.windows.contains_key(id) {
        drag_gone(s)
    } else {
        let w = s.windows[id];
        let nx = x - off_x;
        let nw = right_x - nx;
        if nw > 0 {
            let s1 = if nx != w.x {
                spec_update_window(s, id, moved(w, nx, w.y))
            } else {
                s
            };
            let w1 = s1.windows[id];
            let s2 = if nw != w1.width {
                spec_update_window(s1, id, resize_asked(w1, nw, w1.height))
            } else {
                s1
            };
            (CursorKind::LeftSide, s2)
        } else {
            (CursorKind::LeftSide, s)
        }
    }
}

/// The drag of the right edge of window `id` follows the pointer to `x`.
pub open spec fn spec_drag_right(s: SchemeView, id: usize, off_x: i32, x: i32) -> (CursorKind, SchemeView) {
    if !s.windows.contains_key(id) {
        drag_gone(s)
    } else {
        let w = s.windows[id];
        let nw = x - off_x - w.x;
        if nw > 0 && nw != w.width {
            (CursorKind::RightSide, spec_update_window(s, id, resize_asked(w, nw, w.height)))
        } else {
            (CursorKind::RightSide, s)
        }
    }
}

/// The drag of the bottom edge of window `id` follows the pointer to `y`.
pub open spec fn spec_drag_bottom(s: SchemeView, id: usize, off_y: i32, y: i32) -> (CursorKind, SchemeView) {
    if !s.windows.contains_key(id) {
        drag_gone(s)
    } else {
        let w = s.windows[id];
        let nh = y - off_y - w.y;
        if nh > 0 && nh != w.height {
            (CursorKind::BottomSide, spec_update_window(s, id, resize_asked(w, w.width, nh)))
        } else {
            (CursorKind::BottomSide, s)
        }
    }
}

/// The drag of the bottom left corner of window `id` follows the pointer.
pub open spec fn spec_drag_bottom_left(
    s: SchemeView,
    id: usize,
    off_x: i32,
    off_y: i32,
    right_x: i32,
    x: i32,
    y: i32,
) -> (CursorKind, SchemeView) {
    if !s.windows.contains_key(id) {
        drag_gone(s)
    } else {
        let w = s.windows[id];
        let nx = x - off_x;
        let nh = y - off_y - w.y;
        let nw = right_x - nx;
        if nw > 0 && nh > 0 {
            let s1 = if nx != w.x {
                spec_update_window(s, id, moved(w, nx, w.y))
            } else {
                s
            };
            let w1 = s1.windows[id];
            let s2 = if nw != w1.width || nh != w1.height {
                spec_update_window(s1, id, resize_asked(w1, nw, nh))
            } else {
                s1
            };
            (CursorKind::BottomLeftCorner, s2)
        } else {
            (CursorKind::BottomLeftCorner, s)
        }
    }
}

/// The drag of the bottom right corner of window `id` follows the pointer.
pub open spec fn spec_drag_bottom_right(s: SchemeView, id: usize, off_x: i32, off_y: i32, x: i32, y: i32) -> (CursorKind, SchemeView) {
    if !s.windows.contains_key(id) {
        drag_gone(s)
    } else {
        let w = s.windows[id];
        let nw = x - off_x - w.x;
        let nh = y - off_y - w.y;
        if nw > 0 && nh > 0 && (nw != w.width || nh != w.height) {
            (CursorKind::BottomRightCorner, spec_update_window(s, id, resize_asked(w, nw, nh)))
        } else {
            (CursorKind::BottomRightCorner, s)
        }
    }
}

/// A drag going on and the pointer at `(x, y)`: the cursor and the state.
pub open spec fn spec_drag(s: SchemeView, x: i32, y: i32) -> (CursorKind, SchemeView) {
    match s.dragging {
        DragMode::Idle => (CursorKind::LeftPtr, s),
        DragMode::Title(id, dx, dy) => spec_drag_title(s, id, dx, dy, x, y),
        DragMode::TopBorder(id, off_y, bottom_y) => spec_drag_top(s, id, off_y, bottom_y, y),
        DragMode::LeftBorder(id, off_x, right_x) => spec_drag_left(s, id, off_x, right_x, x),
        DragMode::RightBorder(id, off_x) => spec_drag_right(s, id, off_x, x),
        DragMode::BottomBorder(id, off_y) => spec_drag_bottom(s, id, off_y, y),
        DragMode::BottomLeftBorder(id, off_x, off_y, right_x) => spec_drag_bottom_left(
            s,
            id,
            off_x,
            off_y,
            right_x,
            x,
            y,
        ),
        DragMode::BottomRightBorder(id, off_x, off_y) => spec_drag_bottom_right(s, id, off_x, off_y, x, y),
    }
}

/// The drag moves its window to a place within bounds.
pub open spec fn drag_fits(s: SchemeView, x: int, y: int) -> bool {
    match s.dragging {
        DragMode::Title(id, dx, dy) => s.windows.contains_key(id) ==> in_win(s.windows[id].x + x - dx)
            && in_win(s.windows[id].y + y - dy),
        DragMode::TopBorder(_, off_y, _) => in_win(y - off_y),
        DragMode::LeftBorder(_, off_x, _) => in_win(x - off_x),
        DragMode::BottomLeftBorder(_, off_x, _, _) => in_win(x - off_x),
        _ => true,
    }
}

/// `s` with `hover` as the hovered window; the window that was hovered, if
/// another, is told that the pointer left it.
pub open spec fn spec_set_hover(s: SchemeView, hover: Option<usize>) -> SchemeView {
    if hover != s.hover {
        let s1 = match s.hover {
            Some(h) => spec_push_event(s, h, hover_event(false)),
            None => s,
        };
        SchemeView { hover, ..s1 }
    } else {
        s
    }
}

/// The cursor, hovered window and state after the pointer moves to `(x, y)`:
/// a drag goes on, or the windows under the pointer are searched.
pub open spec fn spec_pointer(s: SchemeView, x: i32, y: i32) -> (CursorKind, Option<usize>, SchemeView) {
    match s.dragging {
        DragMode::Idle => hover_walk(s, front_to_back(s), x as int, y as int),
        _ => {
            let (c, s1) = spec_drag(s, x, y);
            (c, None, s1)
        },
    }
}

/// `s` after the pointer moves to `(x, y)`: a drag goes on, or the window
/// under the pointer is hovered; the window that was hovered and no longer is
/// is told that it was left; the cursor follows.
#[verifier::opaque]
pub open spec fn spec_mouse_event(s: SchemeView, x: i32, y: i32) -> SchemeView {
    let (cursor, hover, s1) = spec_pointer(s, x, y);
    spec_update_cursor(spec_set_hover(s1, hover), x as int, y as int, cursor)
}


/// Where and how large window `w` is tiled at `position` on the screen it
/// overlaps most: `(x, y, width, height)`.
pub open spec fn tile_target(screens: Seq<RectView>, w: WindowView, position: TilePosition) -> (int, int, int, int) {
    let screen = best_screen(screens, w.rect());
    let area = if position == TilePosition::FullScreen {
        screen
    } else {
        spec_window_area(screen)
    };
    let th = w.title_rect().h;
    let top = area.y + th;
    let left = area.x;
    let max_h = area.h - th;
    let max_w = area.w;
    let half_w = max_w / 2;
    let half_h = max_h / 2;
    match position {
        TilePosition::LeftHalf => (left, top, half_w, max_h),
        TilePosition::RightHalf => (left + half_w, top, half_w, max_h),
        TilePosition::TopHalf => (left, top, max_w, half_h),
        TilePosition::BottomHalf => (left, top + half_h, max_w, half_h),
        TilePosition::Maximized | TilePosition::FullScreen => (left, top, max_w, max_h),
    }
}

/// Window `w` tiled at `position`: an untiled window remembers its area and
/// moves to its tile; a tiled one goes back to the area it remembered. It is
/// told its new place and asked to take its new size.
pub open spec fn tiled(screens: Seq<RectView>, w: WindowView, position: TilePosition) -> WindowView {
    match w.restore {
        None => {
            let (x, y, width, height) = tile_target(screens, w, position);
            let w1 = WindowView { restore: Some((w.rect(), position)), ..w };
            resize_asked(moved(w1, x, y), width, height)
        },
        Some((r, _)) => {
            let w1 = WindowView { restore: None, ..w };
            resize_asked(moved(w1, r.x, r.y), r.w, r.h)
        },
    }
}

/// `s` after window `id`, if there is one, is tiled at `position`.
pub open spec fn spec_tile_window(s: SchemeView, id: usize, position: TilePosition) -> SchemeView {
    if s.windows.contains_key(id) {
        spec_update_window(s, id, tiled(s.screens, s.windows[id], position))
    } else {
        s
    }
}


pub open spec fn button_event(ev: ButtonEvent) -> Event {
    Event { code: EVENT_BUTTON, a: (bit(ev.left) + 2 * bit(ev.middle) + 4 * bit(ev.right)) as i64, b: 0 }
}

pub open spec fn quit_event() -> Event {
    Event { code: EVENT_QUIT, a: 0, b: 0 }
}

/// The drag that a press at `(px, py)` on the resize borders of window `id`
/// starts, if the point is on them.
pub open spec fn border_drag(w: WindowView, id: usize, px: int, py: int) -> Option<DragMode> {
    let l = w.left_border_rect().contains_point(px, py);
    let r = w.right_border_rect().contains_point(px, py);
    let b = w.bottom_border_rect().contains_point(px, py);
    if l && !r && !b {
        Some(DragMode::LeftBorder(id, (px - w.x) as i32, (w.x + w.width) as i32))
    } else if !l && r && !b {
        Some(DragMode::RightBorder(id, (px - (w.x + w.width)) as i32))
    } else if !l && !r && b {
        Some(DragMode::BottomBorder(id, (py - (w.y + w.height)) as i32))
    } else if l && !r && b {
        Some(
            DragMode::BottomLeftBorder(
                id,
                (px - w.x) as i32,
                (py - (w.y + w.height)) as i32,
                (w.x + w.width) as i32,
            ),
        )
    } else if !l && r && b {
        Some(DragMode::BottomRightBorder(id, (px - (w.x + w.width)) as i32, (py - (w.y + w.height)) as i32))
    } else {
        None
    }
}

/// A button goes down or up with the pointer where it is; the windows are
/// searched from the front. The pointer on a window: with the super key a
/// left press starts dragging it, else the window gets the button event and,
/// on a new press, is to be focused. On a title bar: a new left press off the
/// buttons starts dragging by the title, a left release on the maximize
/// button tiles the window, on the close button asks it to quit; the window
/// is to be focused. On a resize border: a new left press starts resizing.
/// The result is the window to focus, if any, and the state.
pub open spec fn press_walk(s: SchemeView, ids: Seq<usize>, ev: ButtonEvent) -> (Option<usize>, SchemeView)
    decreases ids.len(),
{
    if ids.len() == 0 {
        (None, s)
    } else {
        match press_at(s, ids[0], ev) {
            Some(r) => r,
            None => press_walk(s, ids.drop_first(), ev),
        }
    }
}

/// What the press does at window `id`: `None` when the search goes on past
/// it, else the window to focus, if any, and the state.
pub open spec fn press_at(s: SchemeView, id: usize, ev: ButtonEvent) -> Option<(Option<usize>, SchemeView)> {
    if !s.windows.contains_key(id) {
        None
    } else {
        let w = s.windows[id];
        if w.rect().contains_point(s.cursor_x, s.cursor_y) {
            Some(press_inside(s, id, ev))
        } else if w.title_rect().contains_point(s.cursor_x, s.cursor_y) {
            Some((Some(id), press_title(s, id, ev)))
        } else {
            match border_drag(w, id, s.cursor_x, s.cursor_y) {
                Some(d) => if ev.left && !s.cursor_left {
                    Some((Some(id), SchemeView { dragging: d, ..s }))
                } else {
                    Some((None, s))
                },
                None => None,
            }
        }
    }
}

/// A button with the pointer on window `id`: with the super key a new left
/// press starts dragging it; else it gets the button event, and a new press
/// of any button is to focus it.
pub open spec fn press_inside(s: SchemeView, id: usize, ev: ButtonEvent) -> (Option<usize>, SchemeView) {
    let press = ev.left && !s.cursor_left;
    if s.modifier_state & SUPER_MODIFIER == SUPER_MODIFIER {
        if press {
            (Some(id), SchemeView { dragging: DragMode::Title(id, s.cursor_x as i32, s.cursor_y as i32), ..s })
        } else {
            (None, s)
        }
    } else {
        let s1 = spec_push_event(s, id, button_event(ev));
        if press || (ev.middle && !s.cursor_middle) || (ev.right && !s.cursor_right) {
            (Some(id), s1)
        } else {
            (None, s1)
        }
    }
}

/// A button with the pointer on the title bar of window `id`: a new left
/// press off the buttons starts dragging by the title; a left release on the
/// maximize button tiles the window, on the close button asks it to quit.
pub open spec fn press_title(s: SchemeView, id: usize, ev: ButtonEvent) -> SchemeView {
    let w = s.windows[id];
    let on_max = w.resizable && w.max_contains(s.cursor_x, s.cursor_y);
    let on_close = !w.unclosable && w.close_contains(s.cursor_x, s.cursor_y);
    let s1 = if ev.left && !s.cursor_left && !on_max && !on_close {
        SchemeView { dragging: DragMode::Title(id, s.cursor_x as i32, s.cursor_y as i32), ..s }
    } else {
        s
    };
    if !ev.left && s.cursor_left {
        if on_max {
            spec_tile_window(s1, id, TilePosition::Maximized)
        } else if on_close {
            spec_push_event(s1, id, quit_event())
        } else {
            s1
        }
    } else {
        s1
    }
}

/// The window a button event concerns and the state, before focusing: a
/// drag a window asked for takes the event as if none went on, and ends on a
/// left release; another drag ends on a left release and concerns no window;
/// without a drag the windows are searched.
pub open spec fn spec_press(s: SchemeView, ev: ButtonEvent) -> (Option<usize>, SchemeView) {
    match s.dragging {
        DragMode::Idle => press_walk(s, front_to_back(s), ev),
        _ => if s.dragging_window_initiated {
            let (f, t) = press_walk(s, front_to_back(s), ev);
            (
                f,
                if !ev.left {
                    SchemeView { dragging_window_initiated: false, dragging: DragMode::Idle, ..t }
                } else {
                    t
                },
            )
        } else {
            (None, if !ev.left {
                SchemeView { dragging: DragMode::Idle, ..s }
            } else {
                s
            })
        },
    }
}

/// The window in front of the focus order, if any.
pub open spec fn focused(s: SchemeView) -> Option<usize> {
    if s.focus.len() > 0 {
        Some(s.focus[0])
    } else {
        None
    }
}

/// `s` after window `f` is to be focused: the focused window loses the
/// focus, `f` comes to the front of the focus order unless it is a back
/// window, and the front window gains the focus.
pub open spec fn spec_refocus(s: SchemeView, f: usize) -> SchemeView {
    let s1 = match focused(s) {
        Some(id) => spec_focus(s, id, false),
        None => s,
    };
    let s2 = if s1.windows[f].zorder != WindowZOrder::Back {
        SchemeView { focus: spec_make_focused(s1.focus, f), ..s1 }
    } else {
        s1
    };
    match focused(s2) {
        Some(id) => spec_focus(s2, id, true),
        None => s2,
    }
}

/// `s` after a button event: a drag that a window asked for takes the press
/// as if none went on and ends on a left release; another drag ends on a left
/// release; with no drag the windows are searched. The window found, if not
/// focused, is focused. The button state is kept.
#[verifier::opaque]
pub open spec fn spec_button_event(s: SchemeView, ev: ButtonEvent) -> SchemeView {
    let (focus, s1) = spec_press(s, ev);
    let s2 = match focus {
        Some(f) => if focused(s1) != Some(f) {
            spec_refocus(s1, f)
        } else {
            s1
        },
        None => s1,
    };
    SchemeView { cursor_left: ev.left, cursor_middle: ev.middle, cursor_right: ev.right, ..s2 }
}


/// `m` with `bit` set or cleared.
pub open spec fn set_bit(m: u8, bit: u8, on: bool) -> u8 {
    if on {
        m | bit
    } else {
        m & !bit
    }
}

/// The modifier keys held after `scancode` goes down or up: the key's own
/// bit follows it, and the "any shift" and "any alt" bits follow their keys.
pub open spec fn modifier_after(m: u8, scancode: u8, pressed: bool) -> u8 {
    let m1 = if scancode == K_SUPER {
        set_bit(m, SUPER_MODIFIER, pressed)
    } else if scancode == K_LEFT_SHIFT {
        set_bit(m, SHIFT_LEFT_MODIFIER, pressed)
    } else if scancode == K_RIGHT_SHIFT {
        set_bit(m, SHIFT_RIGHT_MODIFIER, pressed)
    } else if scancode == K_CTRL {
        set_bit(m, CONTROL_MODIFIER, pressed)
    } else if scancode == K_ALT {
        set_bit(m, ALT_MODIFIER, pressed)
    } else if scancode == K_ALT_GR {
        set_bit(m, ALT_GR_MODIFIER, pressed)
    } else {
        m
    };
    let m2 = set_bit(
        m1,
        SHIFT_ANY_MODIFIER,
        m1 & SHIFT_LEFT_MODIFIER != 0 || m1 & SHIFT_RIGHT_MODIFIER != 0,
    );
    set_bit(m2, ALT_ANY_MODIFIER, m2 & ALT_MODIFIER != 0 || m2 & ALT_GR_MODIFIER != 0)
}

/// `s` with the window list, the volume and the shortcuts overlays hidden.
pub open spec fn spec_close_overlays(s: SchemeView) -> SchemeView {
    SchemeView { win_tabbing: false, volume_osd: false, shortcuts_enabled: false, ..s }
}

/// `s` after the focused window, if any, is asked to quit.
pub open spec fn spec_quit_front(s: SchemeView) -> SchemeView {
    match focused(s) {
        Some(id) => spec_push_event(s, id, quit_event()),
        None => s,
    }
}

/// `s` after the focused window, if any, is asked to carry out a clipboard
/// request; a paste tells it the clipboard size less one.
pub open spec fn spec_clipboard_event(s: SchemeView, kind: ClipboardAction) -> SchemeView {
    let size: int = if kind == ClipboardAction::Paste && s.clipboard.len() > 0 {
        s.clipboard.len() - 1
    } else {
        0
    };
    match focused(s) {
        Some(id) => spec_push_event(s, id, Event { code: EVENT_CLIPBOARD, a: kind.code(), b: size as i64 }),
        None => s,
    }
}

/// `v` moved to the grid line at or before it, towards zero.
pub open spec fn align_grid(v: int) -> int {
    if v >= 0 {
        v - v % (GRID_SIZE as int)
    } else {
        v + (-v) % (GRID_SIZE as int)
    }
}

/// `v` within `lo..=hi`, or `lo` when the range is empty.
pub open spec fn clamp(lo: int, hi: int, v: int) -> int {
    spec_max(lo, spec_min(hi, v))
}

/// `s` after the focused window, if any, moves on the grid by `(h, v)`,
/// keeping a grid square of it on the first screen.
pub open spec fn spec_move_front(s: SchemeView, h: int, v: int) -> SchemeView {
    match focused(s) {
        Some(id) => if s.windows.contains_key(id) {
            let w = s.windows[id];
            let screen = s.screens[0];
            let x = clamp(-w.width + GRID_SIZE, screen.w - GRID_SIZE, align_grid(w.x) + h);
            let y = clamp(-w.height + GRID_SIZE, screen.h - GRID_SIZE, align_grid(w.y) + v);
            spec_update_window(s, id, moved(w, x, y))
        } else {
            s
        },
        None => s,
    }
}

/// `s` after the focused window, if any, is tiled at `position`.
pub open spec fn spec_tile_focused(s: SchemeView, position: TilePosition) -> SchemeView {
    match focused(s) {
        Some(id) => spec_tile_window(s, id, position),
        None => s,
    }
}

/// A window with a title: one the user can switch to.
pub open spec fn titled(s: SchemeView) -> spec_fn(usize) -> bool {
    |id: usize| s.windows.contains_key(id) && s.windows[id].title.len() > 0
}

/// `s` after super and tab: the window list shows, and with more than one
/// titled window the focused one goes behind the last titled one and the new
/// front window is focused; a drag going on ends.
pub open spec fn spec_super_tab(s: SchemeView) -> SchemeView {
    let s0 = SchemeView { win_tabbing: true, ..s };
    let sel = s.focus.filter(titled(s));
    if sel.len() > 1 {
        let s1 = SchemeView { dragging: DragMode::Idle, ..s0 };
        let s2 = match focused(s1) {
            Some(id) => spec_focus(s1, id, false),
            None => s1,
        };
        let s3 = SchemeView { focus: spec_move_focused_after(s2.focus, sel.last()), ..s2 };
        match focused(s3) {
            Some(id) => spec_focus(s3, id, true),
            None => s3,
        }
    } else {
        s0
    }
}


/// The event that window `id` gets for a key with the super key held: the key
/// event with its kind moved out of the range of ordinary kinds.
pub open spec fn super_key_event(ev: KeyEvent) -> Event {
    Event {
        code: (EVENT_KEY + 0x1000_0000) as i64,
        a: ev.character as i64,
        b: (ev.scancode + 256 * bit(ev.pressed)) as i64,
    }
}

/// Window `id` has the smallest id of all.
pub open spec fn is_first_window(s: SchemeView, id: usize) -> bool {
    s.windows.contains_key(id) && forall|k: usize| #[trigger] s.windows.contains_key(k) ==> id <= k
}

/// The window with the smallest id, if any.
pub open spec fn first_window(s: SchemeView) -> Option<usize> {
    if exists|id: usize| is_first_window(s, id) {
        Some(choose|id: usize| is_first_window(s, id))
    } else {
        None
    }
}

/// The volume keys change the volume when pressed and hide its overlay when
/// released; the super key shows the shortcuts when pressed and hides the
/// overlays when released.
pub open spec fn spec_key_first(s: SchemeView, ev: KeyEvent) -> (Option<Volume>, SchemeView) {
    let sc = ev.scancode;
    if sc == K_SUPER {
        if ev.pressed {
            (None, SchemeView { shortcuts_enabled: true, ..s })
        } else {
            (None, spec_close_overlays(s))
        }
    } else if sc == K_VOLUME_TOGGLE || sc == K_VOLUME_DOWN || sc == K_VOLUME_UP {
        if ev.pressed {
            (
                Some(
                    if sc == K_VOLUME_TOGGLE {
                        Volume::Toggle
                    } else if sc == K_VOLUME_DOWN {
                        Volume::Down
                    } else {
                        Volume::Up
                    },
                ),
                s,
            )
        } else {
            (None, SchemeView { volume_osd: false, ..s })
        }
    } else {
        (None, s)
    }
}

/// A key pressed with the super key held: a shortcut of the server, or the
/// key goes to the window with the smallest id.
pub open spec fn super_combo(s: SchemeView, ev: KeyEvent) -> (KeyAction, SchemeView) {
    let sc = ev.scancode;
    let shift = s.modifier_state & SHIFT_ANY_MODIFIER != 0;
    let none = KeyAction::Nothing;
    if sc == K_Q {
        (none, spec_quit_front(s))
    } else if sc == K_TAB {
        (none, spec_super_tab(s))
    } else if sc == K_NUM_0 {
        (none, SchemeView { simulate_enabled: !s.simulate_enabled, ..s })
    } else if sc == K_BRACE_OPEN {
        (KeyAction::Volume { change: Volume::Down, show: true }, s)
    } else if sc == K_BRACE_CLOSE {
        (KeyAction::Volume { change: Volume::Up, show: true }, s)
    } else if sc == K_BACKSLASH {
        (KeyAction::Volume { change: Volume::Toggle, show: true }, s)
    } else if sc == K_M || sc == K_ENTER {
        (none, spec_tile_focused(s, TilePosition::Maximized))
    } else if sc == K_UP {
        (none, if shift {
            spec_tile_focused(s, TilePosition::TopHalf)
        } else {
            spec_move_front(s, 0, -GRID_SIZE)
        })
    } else if sc == K_DOWN {
        (none, if shift {
            spec_tile_focused(s, TilePosition::BottomHalf)
        } else {
            spec_move_front(s, 0, GRID_SIZE as int)
        })
    } else if sc == K_LEFT {
        (none, if shift {
            spec_tile_focused(s, TilePosition::LeftHalf)
        } else {
            spec_move_front(s, -GRID_SIZE, 0)
        })
    } else if sc == K_RIGHT {
        (none, if shift {
            spec_tile_focused(s, TilePosition::RightHalf)
        } else {
            spec_move_front(s, GRID_SIZE as int, 0)
        })
    } else if sc == K_C {
        (none, spec_clipboard_event(s, ClipboardAction::Copy))
    } else if sc == K_X {
        (none, spec_clipboard_event(s, ClipboardAction::Cut))
    } else if sc == K_V {
        (none, spec_clipboard_event(s, ClipboardAction::Paste))
    } else if sc == K_F10 {
        (KeyAction::ToggleDamageBorder, s)
    } else if sc == K_F12 {
        (KeyAction::ToggleFps, s)
    } else {
        match first_window(s) {
            Some(id) => (none, spec_push_event(s, id, super_key_event(ev))),
            None => (none, s),
        }
    }
}

/// The key event up to the simulated pointer: the modifiers follow, the
/// overlay and volume keys act, and a key pressed with the super key held
/// hides the overlays and acts as a shortcut.
pub open spec fn spec_key_shortcuts(s: SchemeView, ev: KeyEvent) -> (KeyAction, SchemeView) {
    let s0 = SchemeView { modifier_state: modifier_after(s.modifier_state, ev.scancode, ev.pressed), ..s };
    let (v1, s1) = spec_key_first(s0, ev);
    let combo = s1.modifier_state & SUPER_MODIFIER == SUPER_MODIFIER && ev.pressed && ev.scancode
        != K_SUPER;
    let (a2, s2) = if combo {
        super_combo(spec_close_overlays(s1), ev)
    } else {
        (KeyAction::Nothing, s1)
    };
    let action = match v1 {
        Some(v) => KeyAction::Volume { change: v, show: !combo },
        None => a2,
    };
    (action, s2)
}

/// The key drives the simulated pointer.
pub open spec fn simulates(ev: KeyEvent) -> bool {
    let sc = ev.scancode;
    ||| ev.pressed && (sc == K_NUM_4 || sc == K_NUM_2 || sc == K_NUM_8 || sc == K_NUM_6 || sc
        == K_NUM_3 || sc == K_NUM_9)
    ||| sc == K_NUM_5 || sc == K_NUM_7 || sc == K_NUM_1
}

/// Where a key moves the simulated pointer, if it moves it.
pub open spec fn simulated_target(s: SchemeView, ev: KeyEvent) -> Option<(int, int)> {
    let sc = ev.scancode;
    let (cx, cy, d) = (s.cursor_x, s.cursor_y, s.simulate_speed);
    if !ev.pressed {
        None
    } else if sc == K_NUM_4 {
        Some((cx - d, cy))
    } else if sc == K_NUM_2 {
        Some((cx, cy + d))
    } else if sc == K_NUM_8 {
        Some((cx, cy - d))
    } else if sc == K_NUM_6 {
        Some((cx + d, cy))
    } else {
        None
    }
}

/// `s` after a key that drives the simulated pointer: the number pad moves
/// the pointer, changes its speed, or presses a button.
pub open spec fn spec_simulate(s: SchemeView, ev: KeyEvent) -> SchemeView {
    let sc = ev.scancode;
    match simulated_target(s, ev) {
        Some((x, y)) => spec_mouse_event(s, x as i32, y as i32),
        None => if sc == K_NUM_3 && ev.pressed {
            if s.simulate_speed > 2 {
                SchemeView { simulate_speed: s.simulate_speed / 2, ..s }
            } else {
                s
            }
        } else if sc == K_NUM_9 && ev.pressed {
            if s.simulate_speed <= 128 {
                SchemeView { simulate_speed: s.simulate_speed * 2, ..s }
            } else {
                s
            }
        } else if sc == K_NUM_5 {
            spec_button_event(s, ButtonEvent { left: ev.pressed, middle: false, right: false })
        } else if sc == K_NUM_7 {
            spec_button_event(s, ButtonEvent { left: false, middle: ev.pressed, right: false })
        } else {
            spec_button_event(s, ButtonEvent { left: false, middle: false, right: ev.pressed })
        },
    }
}

/// `s` after a key goes to the focused window when the super key is not
/// held: a press of a character with neither control nor alt held is also
/// typed text.
pub open spec fn spec_forward_key(s: SchemeView, ev: KeyEvent) -> SchemeView {
    if s.modifier_state & SUPER_MODIFIER == 0 {
        match focused(s) {
            Some(id) => if s.windows.contains_key(id) {
                let s1 = if ev.pressed && ev.character != '\0' && s.modifier_state & (CONTROL_MODIFIER
                    | ALT_MODIFIER) == 0 {
                    spec_push_event(s, id, Event { code: EVENT_TEXT_INPUT, a: ev.character as i64, b: 0 })
                } else {
                    s
                };
                spec_push_event(
                    s1,
                    id,
                    Event { code: EVENT_KEY, a: 0, b: (ev.scancode + 256 * bit(ev.pressed)) as i64 },
                )
            } else {
                s
            },
            None => s,
        }
    } else {
        s
    }
}

/// A key event: shortcuts act, then the key either drives the simulated
/// pointer or goes to the focused window. The result is what is left for
/// the caller to do, and the state.
pub open spec fn spec_key_event(s: SchemeView, ev: KeyEvent) -> (KeyAction, SchemeView) {
    let (action, s2) = spec_key_shortcuts(s, ev);
    if s2.simulate_enabled && simulates(ev) {
        (action, spec_simulate(s2, ev))
    } else {
        (action, spec_forward_key(s2, ev))
    }
}

/// A simulated pointer move stays within bounds and keeps a dragged window
/// within bounds.
pub open spec fn key_event_fits(s: SchemeView, ev: KeyEvent) -> bool {
    s.simulate_enabled ==> match simulated_target(s, ev) {
        Some((x, y)) => in_pos(x) && in_pos(y) && drag_fits(s, x, y),
        None => true,
    }
}


/// The focused window, when it takes relative pointer moves.
pub open spec fn relative_window(s: SchemeView) -> Option<usize> {
    match focused(s) {
        Some(id) => if s.windows.contains_key(id) && s.windows[id].mouse_relative {
            Some(id)
        } else {
            None
        },
        None => None,
    }
}

/// The largest column and row on the first `n` screens, and at least 0.
pub open spec fn screens_max(screens: Seq<RectView>, n: int) -> (int, int)
    decreases n,
{
    if n <= 0 {
        (0, 0)
    } else {
        let (mx, my) = screens_max(screens, n - 1);
        (spec_max(mx, screens[n - 1].right() - 1), spec_max(my, screens[n - 1].bottom() - 1))
    }
}

/// Row `y` kept, screen after screen of the first `n`, on each screen whose
/// columns hold `x`.
pub open spec fn keep_on_screens(screens: Seq<RectView>, n: int, x: int, y: int) -> int
    decreases n,
{
    if n <= 0 {
        y
    } else {
        let y1 = keep_on_screens(screens, n - 1, x, y);
        let r = screens[n - 1];
        if x >= r.left() && x < r.right() {
            clamp(r.top(), r.bottom() - 1, y1)
        } else {
            y1
        }
    }
}

/// Where a relative move takes the pointer: within the largest column and
/// row of the screens, and on the screen under it.
pub open spec fn relative_target(s: SchemeView, ev: MouseRelativeEvent) -> (int, int) {
    let n = s.screens.len() as int;
    let (mx, my) = screens_max(s.screens, n);
    let x = clamp(0, mx, s.cursor_x + ev.dx);
    let y = keep_on_screens(s.screens, n, x, clamp(0, my, s.cursor_y + ev.dy));
    (x, y)
}

pub open spec fn relative_event(ev: MouseRelativeEvent) -> Event {
    Event { code: EVENT_MOUSE_RELATIVE, a: ev.dx as i64, b: ev.dy as i64 }
}

/// `s` after a relative pointer move: a focused window that takes relative
/// moves gets it, and the invisible pointer goes to its centre; else the
/// pointer moves and stays on the screens.
pub open spec fn spec_mouse_relative(s: SchemeView, ev: MouseRelativeEvent) -> SchemeView {
    match relative_window(s) {
        Some(id) => {
            let w = s.windows[id];
            let s1 = spec_push_event(s, id, relative_event(ev));
            spec_update_cursor(s1, w.x + w.width / 2, w.y + w.height / 2, CursorKind::Invisible)
        },
        None => {
            let (x, y) = relative_target(s, ev);
            spec_mouse_event(s, x as i32, y as i32)
        },
    }
}

/// A relative move overflows nothing.
pub open spec fn relative_fits(s: SchemeView, ev: MouseRelativeEvent) -> bool {
    match relative_window(s) {
        Some(id) => queue_event_fits(s.windows[id].events, relative_event(ev)),
        None => {
            &&& i32::MIN <= s.cursor_x + ev.dx <= i32::MAX
            &&& i32::MIN <= s.cursor_y + ev.dy <= i32::MAX
            &&& drag_fits(s, relative_target(s, ev).0, relative_target(s, ev).1)
        },
    }
}

/// `a / b` rounded towards zero, as Rust divides.
pub open spec fn div_trunc(a: int, b: int) -> int {
    if a >= 0 {
        a / b
    } else {
        -((-a) / b)
    }
}

/// Where an absolute pointer position, in units of 1/65536 of the first
/// screen, falls on the first screen.
pub open spec fn absolute_target(s: SchemeView, x: i32, y: i32) -> (int, int) {
    (div_trunc(x * s.screens[0].w, 65536), div_trunc(y * s.screens[0].h, 65536))
}

/// The drawing order recomputed from the focus order and the layers of the
/// windows.
pub open spec fn spec_rezbuffer(s: SchemeView) -> SchemeView {
    SchemeView {
        zbuffer: layered(tagged(s.focus, s.focus.map_values(|id: usize| s.windows[id].zorder))),
        ..s
    }
}

/// The window in front of the drawing order, if any.
pub open spec fn front_window(s: SchemeView) -> Option<usize> {
    if s.zbuffer.len() > 0 {
        Some(s.zbuffer[0].0)
    } else {
        None
    }
}

/// An input event overflows nothing: an absolute pointer position scales to
/// the screen, a relative move fits, and a simulated or dragged move keeps
/// within bounds; events added into a queued one fit.
pub open spec fn event_fits(s0: SchemeView, e: Event) -> bool {
    event_fits_at(spec_rezbuffer(s0), e)
}

/// `event_fits` once the drawing order is `s`'s own.
pub open spec fn event_fits_at(s: SchemeView, e: Event) -> bool {
    match spec_decode(e) {
        InputEvent::Key(k) => key_event_fits(s, k),
        InputEvent::Mouse(m) => {
            &&& i32::MIN <= m.x * s.screens[0].w <= i32::MAX
            &&& i32::MIN <= m.y * s.screens[0].h <= i32::MAX
            &&& drag_fits(s, absolute_target(s, m.x, m.y).0, absolute_target(s, m.x, m.y).1)
        },
        InputEvent::MouseRelative(r) => relative_fits(s, r),
        InputEvent::Forward => match front_window(s) {
            Some(id) => s.windows.contains_key(id) ==> queue_event_fits(s.windows[id].events, e),
            None => true,
        },
        _ => true,
    }
}

/// `s` after an input event: the drawing order is recomputed, then keys,
/// pointer moves and buttons act; scroll wheels and controllers go to the
/// front window; other events change nothing. The result is what a key
/// leaves for the caller to do, and the state.
pub open spec fn spec_event(s0: SchemeView, e: Event) -> (KeyAction, SchemeView) {
    let s = spec_rezbuffer(s0);
    match spec_decode(e) {
        InputEvent::Key(k) => spec_key_event(s, k),
        InputEvent::Mouse(m) => {
            let (x, y) = absolute_target(s, m.x, m.y);
            (KeyAction::Nothing, spec_mouse_event(s, x as i32, y as i32))
        },
        InputEvent::MouseRelative(r) => (KeyAction::Nothing, spec_mouse_relative(s, r)),
        InputEvent::Button(b) => (KeyAction::Nothing, spec_button_event(s, b)),
        InputEvent::Forward => (
            KeyAction::Nothing,
            match front_window(s) {
                Some(id) => spec_push_event(s, id, e),
                None => s,
            },
        ),
        InputEvent::Other => (KeyAction::Nothing, s),
    }
}


/// The window after each of `flags` is set, in order.
pub open spec fn flags_applied(w: WindowView, flags: Seq<char>) -> WindowView
    decreases flags.len(),
{
    if flags.len() == 0 {
        w
    } else {
        flag_set(flags_applied(w, flags.drop_last()), flags.last(), true)
    }
}

/// The size a new window takes: a resizable one fits in the area left for
/// windows on the first screen.
pub open spec fn new_window_size(s: SchemeView, width: int, height: int, flags: Seq<char>) -> (int, int) {
    let allow = spec_window_area(s.screens[0]);
    if flags.contains(ORBITAL_FLAG_RESIZABLE) {
        (spec_min(width, allow.w), spec_min(height, allow.h))
    } else {
        (width, height)
    }
}

/// A new window at `(x, y)` of `width` by `height` zeroed pixels, with the
/// scale of the screens, no events, and its flags and title set.
#[verifier::opaque]
pub open spec fn new_window_view(
    s: SchemeView,
    x: int,
    y: int,
    width: int,
    height: int,
    flags: Seq<char>,
    title: Seq<char>,
) -> WindowView {
    let base = WindowView {
        x,
        y,
        scale: s.scale,
        title: Seq::empty(),
        asynchronous: false,
        borderless: false,
        hidden: false,
        resizable: false,
        transparent: false,
        unclosable: false,
        zorder: WindowZOrder::Normal,
        restore: None,
        width,
        height,
        pixels: zeroed(aligned_len(width, height, PAGE_SIZE as int)),
        events: Seq::empty(),
        notified_read: false,
        clipboard_seek: 0,
        mouse_cursor: true,
        mouse_grab: false,
        mouse_relative: false,
        maps: 0,
    };
    WindowView { title, ..flags_applied(base, flags) }
}

/// Some visible window in the layer of `w` has its cascade square meet that
/// of `w`.
#[verifier::opaque]
pub open spec fn collides(s: SchemeView, w: WindowView) -> bool {
    exists|k: usize|
        #![trigger s.windows[k]]
        s.windows.contains_key(k) && !s.windows[k].hidden && s.windows[k].zorder == w.zorder
            && !w.cascade_rect().intersection(s.windows[k].cascade_rect()).is_empty()
}

/// Where automatic placement puts `w`: while its cascade square meets that
/// of another window it steps down and right by that square, starting over
/// at the left or top edge past the screen; after 1000 steps it gives up and
/// goes back to `center`.
pub open spec fn cascade(s: SchemeView, w: WindowView, attempts: int, center: (int, int), screen: RectView) -> (int, int)
    decreases 1001 - attempts,
{
    if attempts > 1000 || !collides(s, w) {
        if attempts > 1000 {
            center
        } else {
            (w.x, w.y)
        }
    } else {
        let x1 = w.x + 32;
        let y1 = w.y + 32;
        let x2 = if x1 + w.width > screen.w {
            0
        } else {
            x1
        };
        let y2 = if y1 + w.height > screen.h {
            w.title_rect().h
        } else {
            y1
        };
        if attempts + 1 > 1000 {
            center
        } else {
            cascade(s, WindowView { x: x2, y: y2, ..w }, attempts + 1, center, screen)
        }
    }
}

/// Where a new window `w` is placed when it asks for automatic placement:
/// centred in the area left for windows, below its title bar, then cascaded.
#[verifier::opaque]
pub open spec fn auto_place(s: SchemeView, w: WindowView) -> (int, int) {
    let screen = s.screens[0];
    let allow = spec_window_area(screen);
    let center = (
        spec_max(0, div_trunc(allow.w - w.width, 2)),
        spec_max(w.title_rect().h, div_trunc(allow.h - w.height, 2)),
    );
    cascade(s, WindowView { x: center.0, y: center.1, ..w }, 0, center, screen)
}

/// A new window: it takes the next id, the focused window loses the focus,
/// the window is made, placed if both coordinates are negative, redrawn,
/// added to the focus order, asked to take its size, and focused if in
/// front; the pointer is then handled where it is.
#[verifier::opaque]
pub open spec fn spec_window_new(
    s: SchemeView,
    x: int,
    y: int,
    width: int,
    height: int,
    flags: Seq<char>,
    title: Seq<char>,
) -> (usize, SchemeView) {
    let id = s.next_id as usize;
    let s2 = window_new_start(s);
    let (w, h) = new_window_size(s, width, height, flags);
    let w1 = new_window_placed(s2, x, y, w, h, flags, title);
    let s5 = window_new_end(window_new_join(s2, id, w1, w, h));
    (id, spec_mouse_event(s5, s5.cursor_x as i32, s5.cursor_y as i32))
}

/// The new window made with its size, placed automatically when both its
/// coordinates are negative.
#[verifier::opaque]
pub open spec fn new_window_placed(s: SchemeView, x: int, y: int, w: int, h: int, flags: Seq<char>, title: Seq<char>) -> WindowView {
    let w0 = new_window_view(s, x, y, w, h, flags, title);
    if x < 0 && y < 0 {
        let p = auto_place(s, w0);
        WindowView { x: p.0, y: p.1, ..w0 }
    } else {
        w0
    }
}

/// The start of a new window: the next id moves on and the focused window
/// loses the focus.
pub open spec fn window_new_start(s: SchemeView) -> SchemeView {
    let s1 = SchemeView { next_id: s.next_id + 1, ..s };
    match focused(s1) {
        Some(f) => spec_focus(s1, f, false),
        None => s1,
    }
}

/// Window `w1` joins as window `id`: it is redrawn, added to the focus
/// order, and asked to take its size `w` by `h`.
pub open spec fn window_new_join(s: SchemeView, id: usize, w1: WindowView, w: int, h: int) -> SchemeView {
    SchemeView {
        redraws: schedule_window(s.redraws, w1),
        focus: spec_add_window(s.focus, id, w1.zorder),
        windows: s.windows.insert(id, WindowView { events: queue_event(w1.events, resize_event(w, h)), ..w1 }),
        ..s
    }
}

/// The end of a new window: the front window gains the focus.
pub open spec fn window_new_end(s: SchemeView) -> SchemeView {
    match focused(s) {
        Some(f) => spec_focus(s, f, true),
        None => s,
    }
}


/// The window resized to `w` by `h`: zeroed pixels, except the part the old
/// and the new size share, which keeps its pixels.
pub open spec fn resized(win: WindowView, w: int, h: int) -> WindowView {
    let kept = kept_part(win.width, win.height, w, h);
    WindowView {
        width: w,
        height: h,
        pixels: apply_region(
            false,
            zeroed(aligned_len(w, h, PAGE_SIZE as int)),
            w,
            kept,
            win.pixels,
            win.width,
            kept,
        ),
        ..win
    }
}

/// The drag that window `id` asks for, with the pointer at `(cx, cy)`.
pub open spec fn window_drag(w: WindowView, id: usize, mode: WindowDragKind, cx: int, cy: int) -> DragMode {
    match mode {
        WindowDragKind::Move => DragMode::Title(id, cx as i32, cy as i32),
        WindowDragKind::ResizeTop => DragMode::TopBorder(id, (cy - w.y) as i32, (w.y + w.height) as i32),
        WindowDragKind::ResizeLeft => DragMode::LeftBorder(id, (cx - w.x) as i32, (w.x + w.width) as i32),
        WindowDragKind::ResizeRight => DragMode::RightBorder(id, (cx - (w.x + w.width)) as i32),
        WindowDragKind::ResizeBottom => DragMode::BottomBorder(id, (cy - (w.y + w.height)) as i32),
        WindowDragKind::Stop => DragMode::Idle,
    }
}

/// `s` after window `id` asks to be dragged: only the hovered window may, and
/// the drag it starts is marked as its own.
pub open spec fn spec_window_drag(s: SchemeView, id: usize, mode: WindowDragKind) -> SchemeView {
    if s.hover != Some(id) {
        s
    } else {
        SchemeView {
            dragging: window_drag(s.windows[id], id, mode, s.cursor_x, s.cursor_y),
            dragging_window_initiated: true,
            ..s
        }
    }
}

/// `s` after window `id` wants flag `flag` set to `value`. Maximizing and
/// full screen tile the window (and setting them first forgets the area to
/// go back to); unsetting them puts a tiled window back. Other flags are set
/// with the window redrawn before and after.
pub open spec fn spec_set_flag(s: SchemeView, id: usize, flag: char, value: bool) -> SchemeView {
    let w = s.windows[id];
    if flag == ORBITAL_FLAG_MAXIMIZED || flag == ORBITAL_FLAG_FULLSCREEN {
        let s1 = if value {
            SchemeView { windows: s.windows.insert(id, WindowView { restore: None, ..w }), ..s }
        } else {
            s
        };
        if value || w.restore.is_some() {
            spec_tile_window(
                s1,
                id,
                if flag == ORBITAL_FLAG_FULLSCREEN {
                    TilePosition::FullScreen
                } else {
                    TilePosition::Maximized
                },
            )
        } else {
            s1
        }
    } else {
        spec_update_window(s, id, flag_set(w, flag, value))
    }
}

/// The redraws for the damaged parts `damages` of the window area `rect`,
/// each taken relative to the window and cut to it, in order.
pub open spec fn damage_redraws(redraws: Seq<RectView>, rect: RectView, damages: Seq<RectView>) -> Seq<RectView>
    decreases damages.len(),
{
    if damages.len() == 0 {
        redraws
    } else {
        spec_schedule(
            damage_redraws(redraws, rect, damages.drop_last()),
            rect.intersection(damages.last().offset(rect.x, rect.y)),
        )
    }
}

/// A damaged part a client reports stays within bounds.
pub open spec fn damage_fits(d: RectView) -> bool {
    &&& in_pos(d.x)
    &&& in_pos(d.y)
    &&& 0 <= d.w <= POS_BOUND
    &&& 0 <= d.h <= POS_BOUND
}

/// The clipboard bytes that a read at `offset` into `n` bytes gets: as many
/// bytes as fit, but no more than lie past `offset`, taken from the start.
pub open spec fn clipboard_read_len(clipboard: Seq<u8>, offset: int, n: int) -> int {
    if offset >= clipboard.len() {
        0
    } else {
        spec_min(n, clipboard.len() - offset)
    }
}


/// `s` after window `id` is closed: the focused window loses the focus, the
/// window leaves the focus order and the map, its title bar and area are
/// redrawn, the new front window gains the focus, and the pointer is handled
/// where it is.
#[verifier::opaque]
pub open spec fn spec_close(s: SchemeView, id: usize) -> SchemeView {
    let s1 = match focused(s) {
        Some(f) => spec_focus(s, f, false),
        None => s,
    };
    let s3 = spec_forget_window(s1, id);
    let s4 = match focused(s3) {
        Some(f) => spec_focus(s3, f, true),
        None => s3,
    };
    spec_mouse_event(s4, s4.cursor_x as i32, s4.cursor_y as i32)
}

/// `s` with window `id` out of the focus order and the map; its title bar
/// and area are redrawn.
pub open spec fn spec_forget_window(s: SchemeView, id: usize) -> SchemeView {
    let s2 = SchemeView { focus: without(s.focus, id), ..s };
    if s2.windows.contains_key(id) {
        SchemeView {
            windows: s2.windows.remove(id),
            redraws: schedule_window(s2.redraws, s2.windows[id]),
            ..s2
        }
    } else {
        s2
    }
}


/// The volume after a change from `value`: down and up by 5 within 0 to
/// 100; a toggle mutes, keeping the level to go back to, or goes back to it.
/// The result is the new volume and the level kept.
pub open spec fn volume_after(volume: Volume, value: int, toggle: int) -> (int, int) {
    match volume {
        Volume::Down => (spec_max(0, value - 5), toggle),
        Volume::Up => (spec_min(100, value + 5), toggle),
        Volume::Toggle => if value == 0 {
            (toggle, toggle)
        } else {
            (0, value)
        },
    }
}

/// The overlay that shows above the windows, if any: the shortcuts while the
/// super key is held, else the volume after a change, else the window list
/// while switching.
#[derive(Clone, Copy, Debug, PartialEq, Eq, Structural)]
pub enum Popup {
    Nothing,
    Shortcuts,
    Volume,
    WindowList,
}

pub open spec fn spec_popup(s: SchemeView) -> Popup {
    if s.shortcuts_enabled {
        Popup::Shortcuts
    } else if s.volume_osd {
        Popup::Volume
    } else if s.win_tabbing {
        Popup::WindowList
    } else {
        Popup::Nothing
    }
}

/// Where a popup of `w` by `h` pixels shows: centred on the first screen.
pub open spec fn popup_rect(s: SchemeView, w: int, h: int) -> RectView {
    RectView { x: s.screens[0].w / 2 - w / 2, y: s.screens[0].h / 2 - h / 2, w, h }
}

/// `s` after a redraw places the popup of size `popup`, if any: with none,
/// the place of the last one is redrawn and forgotten; else its place is
/// kept and redrawn, unless it is `lazy` and kept its size.
pub open spec fn spec_place_popup(s: SchemeView, popup: Option<(i32, i32)>, lazy: bool) -> SchemeView {
    match popup {
        None => match s.last_popup_rect {
            Some(r) => SchemeView { redraws: spec_schedule(s.redraws, r), last_popup_rect: None, ..s },
            None => s,
        },
        Some((w, h)) => {
            let rect = popup_rect(s, w as int, h as int);
            let fresh = match s.last_popup_rect {
                Some(r) => r.w != rect.w || r.h != rect.h,
                None => true,
            };
            if !lazy || fresh {
                SchemeView { last_popup_rect: Some(rect), redraws: spec_schedule(s.redraws, rect), ..s }
            } else {
                s
            }
        },
    }
}

impl OrbitalScheme {
    pub closed spec fn wf(&self) -> bool {
        &&& self.compositor.inv()
        &&& scheme_wf(self@)
        &&& forall|id: usize| #[trigger] self.windows@.contains_key(id) ==> self.windows@[id].wf()
    }

    /// A scheme in a good state is in a state the scheme can be in.
    pub proof fn lemma_wf(&self)
        requires
            self.wf(),
        ensures
            scheme_wf(self@),
    {
    }

    proof fn lemma_window_bounds(&self, id: usize)
        requires
            self.wf(),
            self.windows@.contains_key(id),
        ensures
            self.windows@[id].wf(),
            placed(self.windows@[id]@),
            self@.windows[id] == self.windows@[id]@,
            boxed(self.windows@[id]@.rect()),
            boxed(self.windows@[id]@.title_rect()),
    {
        assert(self@.windows.contains_key(id));
        let w = self.windows@[id];
        w.lemma_wf();
    }

    /// Asks for `request` to be redrawn.
    pub fn schedule(&mut self, request: Rect)
        requires
            old(self).wf(),
            boxed(request@),
        ensures
            final(self).wf(),
            final(self)@ == with_redraws(old(self)@, spec_schedule(old(self)@.redraws, request@)),
    {
        self.compositor.schedule(request);
    }

    /// Window `id`, if there is one, takes in `e`.
    fn push_event(&mut self, id: usize, e: Event)
        requires
            old(self).wf(),
            old(self)@.windows.contains_key(id) ==> queue_event_fits(old(self)@.windows[id].events, e),
        ensures
            final(self).wf(),
            final(self)@ == spec_push_event(old(self)@, id, e),
    {
        let ghost s0 = self@;
        let ghost m0 = self.windows@;
        match self.windows.remove(&id) {
            Some(mut w) => {
                proof {
                    assert(m0.contains_key(id) && m0[id] == w);
                    assert(s0.windows[id] == w@);
                }
                w.event(e);
                self.windows.insert(id, w);
                proof {
                    lemma_windows_insert(m0.remove(id), id, w);
                    assert(m0.remove(id).insert(id, w) =~= m0.insert(id, w));
                    lemma_windows_insert(m0, id, w);
                    let s1 = spec_push_event(s0, id, e);
                    assert(self@.windows =~= s1.windows);
                    assert(self@ =~= s1);
                    assert forall|k: usize| #[trigger] self.windows@.contains_key(k) implies self.windows@[k].wf() by {
                        if k != id {
                            assert(m0.contains_key(k));
                        }
                    }
                }
            },
            None => {
                proof {
                    assert(m0.remove(id) =~= m0);
                }
            },
        }
    }

    /// Window `id`, if there is one, learns that it gained or lost the focus;
    /// its title bar and area are redrawn.
    #[verifier::rlimit(30)]
    fn focus(&mut self, id: usize, focused: bool)
        requires
            old(self).wf(),
        ensures
            final(self).wf(),
            final(self)@ == spec_focus(old(self)@, id, focused),
    {
        let ghost s0 = self@;
        let ghost m0 = self.windows@;
        match self.windows.remove(&id) {
            Some(mut w) => {
                proof {
                    assert(m0.contains_key(id) && m0[id] == w);
                    assert(s0.windows[id] == w@);
                }
                self.schedule_window_of(&w);
                w.event(FocusEvent { focused }.to_event());
                self.schedule_window_of(&w);
                self.put_window(id, w, Ghost(m0));
                proof {
                    let s1 = spec_focus(s0, id, focused);
                    assert(self@.windows =~= s1.windows);
                    assert(self@ =~= s1);
                }
            },
            None => {
                proof {
                    assert(m0.remove(id) =~= m0);
                }
            },
        }
    }

    /// Window `id` moves to `(x, y)` and is told so.
    fn move_window(&mut self, id: usize, x: i32, y: i32)
        requires
            old(self).wf(),
            old(self)@.windows.contains_key(id),
            in_win(x as int),
            in_win(y as int),
        ensures
            final(self).wf(),
            final(self)@ == spec_update_window(old(self)@, id, moved(old(self)@.windows[id], x as int, y as int)),
    {
        let ghost s0 = self@;
        let ghost m0 = self.windows@;
        let mut w = self.windows.remove(&id).unwrap();
        proof {
            assert(m0.contains_key(id) && m0[id] == w);
        }
        self.schedule_window_of(&w);
        w.move_to(x, y);
        self.schedule_window_of(&w);
        self.put_window(id, w, Ghost(m0));
        proof {
            let s1 = spec_update_window(s0, id, moved(s0.windows[id], x as int, y as int));
            assert(self@.windows =~= s1.windows);
            assert(self@ =~= s1);
        }
    }

    /// Window `id` is placed at `(x, y)`; it is redrawn before and after.
    fn place_window(&mut self, id: usize, x: i32, y: i32)
        requires
            old(self).wf(),
            old(self)@.windows.contains_key(id),
            in_win(x as int),
            in_win(y as int),
        ensures
            final(self).wf(),
            final(self)@ == spec_update_window(
                old(self)@,
                id,
                WindowView { x: x as int, y: y as int, ..old(self)@.windows[id] },
            ),
    {
        let ghost s0 = self@;
        let ghost m0 = self.windows@;
        let mut w = self.windows.remove(&id).unwrap();
        proof {
            assert(m0.contains_key(id) && m0[id] == w);
        }
        self.schedule_window_of(&w);
        w.set_position(x, y);
        self.schedule_window_of(&w);
        self.put_window(id, w, Ghost(m0));
        proof {
            let s1 = spec_update_window(s0, id, WindowView { x: x as int, y: y as int, ..s0.windows[id] });
            assert(self@.windows =~= s1.windows);
            assert(self@ =~= s1);
        }
    }

    /// Window `id` gets a new image of `width` by `height` pixels that keeps
    /// the pixels both sizes share; it is redrawn before and after.
    fn resize_window(&mut self, id: usize, width: i32, height: i32)
        requires
            old(self).wf(),
            old(self)@.windows.contains_key(id),
            size_fits(width as int, height as int),
        ensures
            final(self).wf(),
            final(self)@ == spec_update_window(old(self)@, id, resized(old(self)@.windows[id], width as int, height as int)),
    {
        let ghost s0 = self@;
        let ghost m0 = self.windows@;
        let mut w = self.windows.remove(&id).unwrap();
        proof {
            assert(m0.contains_key(id) && m0[id] == w);
        }
        self.schedule_window_of(&w);
        w.set_size(width, height);
        self.schedule_window_of(&w);
        self.put_window(id, w, Ghost(m0));
        proof {
            let s1 = spec_update_window(s0, id, resized(s0.windows[id], width as int, height as int));
            assert(self@.windows =~= s1.windows);
            assert(self@ =~= s1);
        }
    }

    /// Window `id` is redrawn as it is, as if it had changed.
    fn redraw_window(&mut self, id: usize)
        requires
            old(self).wf(),
            old(self)@.windows.contains_key(id),
        ensures
            final(self).wf(),
            final(self)@ == spec_update_window(old(self)@, id, old(self)@.windows[id]),
    {
        let ghost s0 = self@;
        let ghost m0 = self.windows@;
        let w = self.windows.remove(&id).unwrap();
        proof {
            assert(m0.contains_key(id) && m0[id] == w);
        }
        self.schedule_window_of(&w);
        self.schedule_window_of(&w);
        self.put_window(id, w, Ghost(m0));
        proof {
            let s1 = spec_update_window(s0, id, s0.windows[id]);
            assert(self@.windows =~= s1.windows);
            assert(self@ =~= s1);
        }
    }

    /// Window `id` is asked to take the size `width` by `height`.
    fn ask_resize(&mut self, id: usize, width: i32, height: i32)
        requires
            old(self).wf(),
            old(self)@.windows.contains_key(id),
            width >= 0,
            height >= 0,
        ensures
            final(self).wf(),
            final(self)@ == spec_update_window(
                old(self)@,
                id,
                resize_asked(old(self)@.windows[id], width as int, height as int),
            ),
    {
        let ghost s0 = self@;
        let ghost m0 = self.windows@;
        let mut w = self.windows.remove(&id).unwrap();
        proof {
            assert(m0.contains_key(id) && m0[id] == w);
        }
        self.schedule_window_of(&w);
        w.event(ResizeEvent { width: width as u32, height: height as u32 }.to_event());
        self.schedule_window_of(&w);
        self.put_window(id, w, Ghost(m0));
        proof {
            let s1 = spec_update_window(s0, id, resize_asked(s0.windows[id], width as int, height as int));
            assert(self@.windows =~= s1.windows);
            assert(self@ =~= s1);
        }
    }

    /// The place and size of window `id`, if there is one.
    pub(crate) fn geometry(&self, id: usize) -> (r: Option<(i32, i32, i32, i32)>)
        requires
            self.wf(),
        ensures
            match r {
                Some((x, y, w, h)) => {
                    &&& self@.windows.contains_key(id)
                    &&& x == self@.windows[id].x
                    &&& y == self@.windows[id].y
                    &&& w == self@.windows[id].width
                    &&& h == self@.windows[id].height
                    &&& placed(self@.windows[id])
                },
                None => !self@.windows.contains_key(id),
            },
    {
        match self.windows.get(&id) {
            Some(w) => {
                proof {
                    self.lemma_window_bounds(id);
                }
                Some((w.x, w.y, w.width(), w.height()))
            },
            None => None,
        }
    }

    /// Walks the windows `ids` from the front as `hover_walk` says.
    fn hover_walk_exec(&mut self, ids: &Vec<usize>, x: i32, y: i32) -> (r: (CursorKind, Option<usize>))
        requires
            old(self).wf(),
            in_pos(x as int),
            in_pos(y as int),
        ensures
            final(self).wf(),
            (r.0, r.1, final(self)@) == hover_walk(old(self)@, ids@, x as int, y as int),
    {
        let ghost s0 = self@;
        let mut i: usize = 0;
        assert(ids@.skip(0) =~= ids@);
        while i < ids.len()
            invariant
                self.wf(),
                self@ == s0,
                s0 == old(self)@,
                i <= ids@.len(),
                in_pos(x as int),
                in_pos(y as int),
                hover_walk(s0, ids@, x as int, y as int) == hover_walk(s0, ids@.skip(i as int), x as int, y as int),
            decreases ids@.len() - i,
        {
            let id = ids[i];
            proof {
                assert(ids@.skip(i as int)[0] == id);
                assert(ids@.skip(i as int).drop_first() =~= ids@.skip(i + 1));
            }
            match self.windows.get(&id) {
                None => {},
                Some(window) => {
                    proof {
                        self.lemma_window_bounds(id);
                        self.lemma_window_bounds_of(window);
                    }
                    let rect = window.rect();
                    let ghost w = s0.windows[id];
                    assert(w == window@);
                    if rect.contains(x, y) {
                        let mouse_cursor = window.mouse_cursor;
                        let wx = window.x;
                        let wy = window.y;
                        let hovered = match self.hover {
                            Some(h) => h == id,
                            None => false,
                        };
                        if !hovered {
                            self.push_event(id, HoverEvent { entered: true }.to_event());
                        }
                        if self.modifier_state & SUPER_MODIFIER == 0 {
                            let e = Event { code: EVENT_MOUSE, a: x as i64 - wx as i64, b: y as i64 - wy as i64 };
                            self.push_event(id, e);
                        }
                        let cursor = if mouse_cursor {
                            CursorKind::LeftPtr
                        } else {
                            CursorKind::Invisible
                        };
                        return (cursor, Some(id));
                    }
                    let title = window.title_rect();
                    if title.contains(x, y) {
                        proof {
                            assert(!w.rect().contains_point(x as int, y as int));
                            assert(w.title_rect().contains_point(x as int, y as int));
                            let rest = ids@.skip(i as int);
                            assert(rest.len() > 0);
                            assert(s0.windows.contains_key(rest[0]));
                            assert(hover_walk(s0, rest, x as int, y as int) == (CursorKind::LeftPtr, None::<usize>, s0));
                        }
                        return (CursorKind::LeftPtr, None);
                    }
                    let mode = border_cursor_exec(window, self.cursor_x, self.cursor_y);
                    match mode {
                        Some(k) => {
                            return (k, None);
                        },
                        None => {},
                    }
                },
            }
            i = i + 1;
        }
        proof {
            assert(ids@.skip(i as int).len() == 0);
        }
        (CursorKind::LeftPtr, None)
    }

    /// The drag of window `id` by its title goes on with the pointer at `(x, y)`.
    fn drag_title(&mut self, id: usize, dx: i32, dy: i32, x: i32, y: i32) -> (c: CursorKind)
        requires
            old(self).wf(),
            old(self)@.dragging == DragMode::Title(id, dx, dy),
            in_pos(x as int),
            in_pos(y as int),
            drag_fits(old(self)@, x as int, y as int),
        ensures
            final(self).wf(),
            (c, final(self)@) == spec_drag_title(old(self)@, id, dx, dy, x, y),
    {
        match self.geometry(id) {
            None => {
                self.set_dragging(DragMode::Idle);
                CursorKind::LeftPtr
            },
            Some((wx, wy, _, _)) => {
                if dx != x || dy != y {
                    let nx = wx + x - dx;
                    let ny = wy + y - dy;
                    let ghost s0 = self@;
                    self.move_window(id, nx, ny);
                    let ghost s1 = self@;
                    self.set_dragging(DragMode::Title(id, x, y));
                    proof {
                        let w = s0.windows[id];
                        assert(nx as int == w.x + x - dx);
                        assert(ny as int == w.y + y - dy);
                        assert(s1 == spec_update_window(s0, id, moved(w, w.x + x - dx, w.y + y - dy)));
                        assert(self@ == SchemeView { dragging: DragMode::Title(id, x, y), ..s1 });
                    }
                }
                CursorKind::LeftPtr
            },
        }
    }

    /// The drag of the top edge of window `id` goes on.
    fn drag_top(&mut self, id: usize, off_y: i32, bottom_y: i32, x: i32, y: i32) -> (c: CursorKind)
        requires
            old(self).wf(),
            old(self)@.dragging == DragMode::TopBorder(id, off_y, bottom_y),
            in_pos(x as int),
            in_pos(y as int),
            drag_fits(old(self)@, x as int, y as int),
        ensures
            final(self).wf(),
            (c, final(self)@) == spec_drag_top(old(self)@, id, off_y, bottom_y, y),
    {
        match self.geometry(id) {
            None => {
                self.set_dragging(DragMode::Idle);
                CursorKind::LeftPtr
            },
            Some((wx, wy, ww, wh)) => {
                let ny = y - off_y;
                let h = bottom_y - ny;
                if h > 0 {
                    if ny != wy {
                        self.move_window(id, wx, ny);
                    }
                    if h != wh {
                        self.ask_resize(id, ww, h);
                    }
                }
                CursorKind::BottomSide
            },
        }
    }

    /// The drag of the left edge of window `id` goes on.
    fn drag_left(&mut self, id: usize, off_x: i32, right_x: i32, x: i32, y: i32) -> (c: CursorKind)
        requires
            old(self).wf(),
            old(self)@.dragging == DragMode::LeftBorder(id, off_x, right_x),
            in_pos(x as int),
            in_pos(y as int),
            drag_fits(old(self)@, x as int, y as int),
        ensures
            final(self).wf(),
            (c, final(self)@) == spec_drag_left(old(self)@, id, off_x, right_x, x),
    {
        match self.geometry(id) {
            None => {
                self.set_dragging(DragMode::Idle);
                CursorKind::LeftPtr
            },
            Some((wx, wy, ww, wh)) => {
                let nx = x - off_x;
                let w = right_x - nx;
                if w > 0 {
                    if nx != wx {
                        self.move_window(id, nx, wy);
                    }
                    if w != ww {
                        self.ask_resize(id, w, wh);
                    }
                }
                CursorKind::LeftSide
            },
        }
    }

    /// The drag of the right edge of window `id` goes on.
    fn drag_right(&mut self, id: usize, off_x: i32, x: i32, y: i32) -> (c: CursorKind)
        requires
            old(self).wf(),
            old(self)@.dragging == DragMode::RightBorder(id, off_x),
            in_pos(x as int),
            in_pos(y as int),
        ensures
            final(self).wf(),
            (c, final(self)@) == spec_drag_right(old(self)@, id, off_x, x),
    {
        match self.geometry(id) {
            None => {
                self.set_dragging(DragMode::Idle);
                CursorKind::LeftPtr
            },
            Some((wx, _, ww, wh)) => {
                let w = x - off_x - wx;
                if w > 0 && w != ww {
                    self.ask_resize(id, w, wh);
                }
                CursorKind::RightSide
            },
        }
    }

    /// The drag of the bottom edge of window `id` goes on.
    fn drag_bottom(&mut self, id: usize, off_y: i32, x: i32, y: i32) -> (c: CursorKind)
        requires
            old(self).wf(),
            old(self)@.dragging == DragMode::BottomBorder(id, off_y),
            in_pos(x as int),
            in_pos(y as int),
        ensures
            final(self).wf(),
            (c, final(self)@) == spec_drag_bottom(old(self)@, id, off_y, y),
    {
        match self.geometry(id) {
            None => {
                self.set_dragging(DragMode::Idle);
                CursorKind::LeftPtr
            },
            Some((_, wy, ww, wh)) => {
                let h = y - off_y - wy;
                if h > 0 && h != wh {
                    self.ask_resize(id, ww, h);
                }
                CursorKind::BottomSide
            },
        }
    }

    /// The drag of the bottom left corner of window `id` goes on.
    fn drag_bottom_left(&mut self, id: usize, off_x: i32, off_y: i32, right_x: i32, x: i32, y: i32) -> (c: CursorKind)
        requires
            old(self).wf(),
            old(self)@.dragging == DragMode::BottomLeftBorder(id, off_x, off_y, right_x),
            in_pos(x as int),
            in_pos(y as int),
            drag_fits(old(self)@, x as int, y as int),
        ensures
            final(self).wf(),
            (c, final(self)@) == spec_drag_bottom_left(old(self)@, id, off_x, off_y, right_x, x, y),
    {
        match self.geometry(id) {
            None => {
                self.set_dragging(DragMode::Idle);
                CursorKind::LeftPtr
            },
            Some((wx, wy, ww, wh)) => {
                let nx = x - off_x;
                let h = y - off_y - wy;
                let w = right_x - nx;
                if w > 0 && h > 0 {
                    if nx != wx {
                        self.move_window(id, nx, wy);
                    }
                    if w != ww || h != wh {
                        self.ask_resize(id, w, h);
                    }
                }
                CursorKind::BottomLeftCorner
            },
        }
    }

    /// The drag of the bottom right corner of window `id` goes on.
    fn drag_bottom_right(&mut self, id: usize, off_x: i32, off_y: i32, x: i32, y: i32) -> (c: CursorKind)
        requires
            old(self).wf(),
            old(self)@.dragging == DragMode::BottomRightBorder(id, off_x, off_y),
            in_pos(x as int),
            in_pos(y as int),
        ensures
            final(self).wf(),
            (c, final(self)@) == spec_drag_bottom_right(old(self)@, id, off_x, off_y, x, y),
    {
        match self.geometry(id) {
            None => {
                self.set_dragging(DragMode::Idle);
                CursorKind::LeftPtr
            },
            Some((wx, wy, ww, wh)) => {
                let w = x - off_x - wx;
                let h = y - off_y - wy;
                if w > 0 && h > 0 && (w != ww || h != wh) {
                    self.ask_resize(id, w, h);
                }
                CursorKind::BottomRightCorner
            },
        }
    }

    /// The drag becomes `d`.
    fn set_dragging(&mut self, d: DragMode)
        requires
            old(self).wf(),
            drag_bounded(d),
            drag_window(d) < old(self)@.next_id,
        ensures
            final(self).wf(),
            final(self)@ == (SchemeView { dragging: d, ..old(self)@ }),
    {
        self.dragging = d;
    }

    /// The drag going on follows the pointer to `(x, y)`.
    fn drag_step(&mut self, x: i32, y: i32) -> (c: CursorKind)
        requires
            old(self).wf(),
            old(self)@.dragging != DragMode::Idle,
            in_pos(x as int),
            in_pos(y as int),
            drag_fits(old(self)@, x as int, y as int),
        ensures
            final(self).wf(),
            (c, final(self)@) == spec_drag(old(self)@, x, y),
    {
        match self.dragging {
            DragMode::Idle => CursorKind::LeftPtr,
            DragMode::Title(id, dx, dy) => self.drag_title(id, dx, dy, x, y),
            DragMode::TopBorder(id, off_y, bottom_y) => self.drag_top(id, off_y, bottom_y, x, y),
            DragMode::LeftBorder(id, off_x, right_x) => self.drag_left(id, off_x, right_x, x, y),
            DragMode::RightBorder(id, off_x) => self.drag_right(id, off_x, x, y),
            DragMode::BottomBorder(id, off_y) => self.drag_bottom(id, off_y, x, y),
            DragMode::BottomLeftBorder(id, off_x, off_y, right_x) => self.drag_bottom_left(
                id,
                off_x,
                off_y,
                right_x,
                x,
                y,
            ),
            DragMode::BottomRightBorder(id, off_x, off_y) => self.drag_bottom_right(id, off_x, off_y, x, y),
        }
    }

    /// `hover` becomes the hovered window; the window hovered before, if
    /// another, is told that the pointer left it.
    fn set_hover(&mut self, hover: Option<usize>)
        requires
            old(self).wf(),
        ensures
            final(self).wf(),
            final(self)@ == spec_set_hover(old(self)@, hover),
    {
        let same = match (hover, self.hover) {
            (Some(a), Some(b)) => a == b,
            (None, None) => true,
            _ => false,
        };
        if !same {
            match self.hover {
                Some(id) => {
                    self.push_event(id, HoverEvent { entered: false }.to_event());
                },
                None => {},
            }
            self.hover = hover;
        }
    }

    /// The pointer moves to the place of `event`: a drag goes on, or the
    /// window under the pointer is hovered and told where it is; the cursor
    /// follows.
    fn mouse_event(&mut self, event: MouseEvent)
        requires
            old(self).wf(),
            in_pos(event.x as int),
            in_pos(event.y as int),
            drag_fits(old(self)@, event.x as int, event.y as int),
        ensures
            final(self).wf(),
            final(self)@ == spec_mouse_event(old(self)@, event.x, event.y),
    {
        proof {
            reveal(spec_mouse_event);
        }
        let x = event.x;
        let y = event.y;
        let (new_cursor, new_hover) = match self.dragging {
            DragMode::Idle => {
                let ids = self.order.iter_front_to_back();
                self.hover_walk_exec(&ids, x, y)
            },
            _ => (self.drag_step(x, y), None),
        };
        self.set_hover(new_hover);
        self.update_cursor(x, y, new_cursor);
    }

    /// Where and how large window `w` is tiled at `position`.
    fn tile_target_exec(&self, w: &Window, position: TilePosition) -> (r: (i32, i32, i32, i32))
        requires
            self.compositor.inv(),
            forall|i: int| 0 <= i < self.compositor.screens_view().len() ==> screen_placed(#[trigger] self.compositor.screens_view()[i]),
            w.wf(),
            placed(w@),
        ensures
            (r.0 as int, r.1 as int, r.2 as int, r.3 as int) == tile_target(self.compositor.screens_view(), w@, position),
            in_win(r.0 as int),
            in_win(r.1 as int),
            0 <= r.2 <= SCREEN_BOUND,
            0 <= r.3 <= SCREEN_BOUND,
    {
        proof {
            self.lemma_window_bounds_of(w);
            self.compositor.lemma_inv();
            lemma_best_screen_placed(self.compositor.screens_view(), w@.rect(), self.compositor.screens_view().len() as int);
        }
        let screen_rect = self.compositor.get_screen_rect_for_window(&w.rect());
        let window_rect = if position == TilePosition::FullScreen {
            screen_rect
        } else {
            self.compositor.get_window_rect_from_screen_rect(&screen_rect)
        };
        let title = w.title_rect();
        let top = window_rect.top() + title.height();
        let left = window_rect.left();
        let max_height = window_rect.height() - title.height();
        let max_width = window_rect.width();
        let half_width = max_width / 2;
        let half_height = max_height / 2;
        match position {
            TilePosition::LeftHalf => (left, top, half_width, max_height),
            TilePosition::RightHalf => (left + half_width, top, half_width, max_height),
            TilePosition::TopHalf => (left, top, max_width, half_height),
            TilePosition::BottomHalf => (left, top + half_height, max_width, half_height),
            TilePosition::Maximized | TilePosition::FullScreen => (left, top, max_width, max_height),
        }
    }

    /// Window `w` is tiled at `position`, or put back where it was when it
    /// is tiled already.
    fn tile_apply(&self, w: &mut Window, position: TilePosition)
        requires
            self.compositor.inv(),
            forall|i: int| 0 <= i < self.compositor.screens_view().len() ==> screen_placed(#[trigger] self.compositor.screens_view()[i]),
            old(w).wf(),
            placed(old(w)@),
        ensures
            final(w).wf(),
            placed(final(w)@),
            final(w)@ == tiled(self.compositor.screens_view(), old(w)@, position),
    {
        match w.restore {
            None => {
                let t = self.tile_target_exec(w, position);
                tile_to(w, t, position);
            },
            Some((r, _)) => {
                untile(w, r);
            },
        }
    }

    /// Window `id`, if there is one, is tiled at `position`, or put back
    /// where it was when it is tiled already.
    fn tile_window(&mut self, id: usize, position: TilePosition)
        requires
            old(self).wf(),
        ensures
            final(self).wf(),
            final(self)@ == spec_tile_window(old(self)@, id, position),
    {
        let ghost s0 = self@;
        let ghost m0 = self.windows@;
        match self.windows.remove(&id) {
            None => {
                proof {
                    assert(m0.remove(id) =~= m0);
                }
            },
            Some(mut w) => {
                proof {
                    assert(m0.contains_key(id) && m0[id] == w);
                    assert(s0.windows[id] == w@);
                }
                self.schedule_window_of(&w);
                self.tile_apply(&mut w, position);
                self.schedule_window_of(&w);
                self.put_window(id, w, Ghost(m0));
                proof {
                    let s1 = spec_tile_window(s0, id, position);
                    assert(self@.windows =~= s1.windows);
                    assert(self@ =~= s1);
                }
            },
        }
    }

    /// Walks the windows `ids` from the front as `press_walk` says.
    fn press_walk_exec(&mut self, ids: &Vec<usize>, ev: ButtonEvent) -> (r: Option<usize>)
        requires
            old(self).wf(),
        ensures
            final(self).wf(),
            (r, final(self)@) == press_walk(old(self)@, ids@, ev),
            final(self)@.focus == old(self)@.focus,
            r matches Some(f) ==> final(self)@.windows.contains_key(f),
    {
        let ghost s0 = self@;
        let mut i: usize = 0;
        assert(ids@.skip(0) =~= ids@);
        while i < ids.len()
            invariant
                self.wf(),
                self@ == s0,
                s0 == old(self)@,
                i <= ids@.len(),
                press_walk(s0, ids@, ev) == press_walk(s0, ids@.skip(i as int), ev),
            decreases ids@.len() - i,
        {
            let id = ids[i];
            proof {
                assert(ids@.skip(i as int)[0] == id);
                assert(ids@.skip(i as int).drop_first() =~= ids@.skip(i + 1));
            }
            match self.press_at_exec(id, ev) {
                Some(r) => {
                    return r;
                },
                None => {},
            }
            i = i + 1;
        }
        proof {
            assert(ids@.skip(i as int).len() == 0);
        }
        None
    }

    /// The press at window `id`, as `press_at` says; `None` leaves the state
    /// as it is.
    fn press_at_exec(&mut self, id: usize, ev: ButtonEvent) -> (r: Option<Option<usize>>)
        requires
            old(self).wf(),
        ensures
            final(self).wf(),
            match r {
                Some(f) => press_at(old(self)@, id, ev) == Some((f, final(self)@)),
                None => press_at(old(self)@, id, ev).is_none() && final(self)@ == old(self)@,
            },
            final(self)@.focus == old(self)@.focus,
            r matches Some(Some(f)) ==> final(self)@.windows.contains_key(f),
    {
        let ghost s0 = self@;
        match self.windows.get(&id) {
            None => None,
            Some(window) => {
                proof {
                    self.lemma_window_bounds(id);
                    self.lemma_window_bounds_of(window);
                    assert(s0.windows[id] == window@);
                    assert(s0.focus.contains(id));
                }
                let cx = self.cursor_x;
                let cy = self.cursor_y;
                if window.rect().contains(cx, cy) {
                    Some(self.press_inside_exec(id, ev))
                } else if window.title_rect().contains(cx, cy) {
                    let on_max = window.resizable && window.max_contains(cx, cy);
                    let on_close = !window.unclosable && window.close_contains(cx, cy);
                    self.title_press(id, ev, on_max, on_close);
                    Some(Some(id))
                } else {
                    match border_drag_exec(window, id, cx, cy) {
                        Some(d) => {
                            if ev.left && !self.cursor_left {
                                self.set_dragging(d);
                                Some(Some(id))
                            } else {
                                Some(None)
                            }
                        },
                        None => None,
                    }
                }
            },
        }
    }

    /// A button with the pointer on window `id`, as `press_inside` says.
    fn press_inside_exec(&mut self, id: usize, ev: ButtonEvent) -> (r: Option<usize>)
        requires
            old(self).wf(),
            old(self)@.windows.contains_key(id),
        ensures
            final(self).wf(),
            (r, final(self)@) == press_inside(old(self)@, id, ev),
            final(self)@.focus == old(self)@.focus,
            r matches Some(f) ==> final(self)@.windows.contains_key(f),
    {
        let press = ev.left && !self.cursor_left;
        if self.modifier_state & SUPER_MODIFIER == SUPER_MODIFIER {
            if press {
                let cx = self.cursor_x;
                let cy = self.cursor_y;
                self.set_dragging(DragMode::Title(id, cx, cy));
                return Some(id);
            }
            None
        } else {
            let other = (ev.middle && !self.cursor_middle) || (ev.right && !self.cursor_right);
            self.push_event(id, ev.to_event());
            if press || other {
                return Some(id);
            }
            None
        }
    }

    /// A button on the title bar of window `id`, as `press_title` says; the
    /// flags tell whether the pointer is on the maximize or close button.
    fn title_press(&mut self, id: usize, ev: ButtonEvent, on_max: bool, on_close: bool)
        requires
            old(self).wf(),
            old(self)@.windows.contains_key(id),
            on_max == (old(self)@.windows[id].resizable && old(self)@.windows[id].max_contains(
                old(self)@.cursor_x,
                old(self)@.cursor_y,
            )),
            on_close == (!old(self)@.windows[id].unclosable && old(self)@.windows[id].close_contains(
                old(self)@.cursor_x,
                old(self)@.cursor_y,
            )),
        ensures
            final(self).wf(),
            final(self)@ == press_title(old(self)@, id, ev),
            final(self)@.focus == old(self)@.focus,
    {
        let cx = self.cursor_x;
        let cy = self.cursor_y;
        let left = self.cursor_left;
        if ev.left && !left && !on_max && !on_close {
            self.set_dragging(DragMode::Title(id, cx, cy));
        }
        if !ev.left && left {
            if on_max {
                self.tile_window(id, TilePosition::Maximized);
            } else if on_close {
                self.push_event(id, QuitEvent.to_event());
            }
        }
    }

    /// The focus order puts window `id` in front.
    fn make_focused(&mut self, id: usize)
        requires
            old(self).wf(),
            old(self)@.focus.contains(id),
        ensures
            final(self).wf(),
            final(self)@ == (SchemeView { focus: spec_make_focused(old(self)@.focus, id), ..old(self)@ }),
    {
        let ghost f0 = self@.focus;
        self.order.make_focused(id);
        proof {
            lemma_make_focused(f0, id);
            lemma_same_members(f0, spec_make_focused(f0, id));
        }
    }

    /// Window `f` is focused: the focused window loses the focus, `f` comes
    /// in front unless it is a back window, and the front window gains it.
    fn refocus(&mut self, f: usize)
        requires
            old(self).wf(),
            old(self)@.windows.contains_key(f),
        ensures
            final(self).wf(),
            final(self)@ == spec_refocus(old(self)@, f),
    {
        match self.order.focused() {
            Some(id) => self.focus(id, false),
            None => {},
        }
        let z = self.windows.get(&f).unwrap().zorder;
        if z != WindowZOrder::Back {
            self.make_focused(f);
        }
        match self.order.focused() {
            Some(id) => self.focus(id, true),
            None => {},
        }
    }

    /// The window that a button event concerns, as `spec_button_event` finds
    /// it, with the drags it starts or ends.
    fn press(&mut self, event: ButtonEvent) -> (r: Option<usize>)
        requires
            old(self).wf(),
        ensures
            final(self).wf(),
            (r, final(self)@) == spec_press(old(self)@, event),
            r matches Some(f) ==> final(self)@.windows.contains_key(f),
    {
        match self.dragging {
            DragMode::Idle => {
                let ids = self.order.iter_front_to_back();
                self.press_walk_exec(&ids, event)
            },
            _ => {
                if self.dragging_window_initiated {
                    let ids = self.order.iter_front_to_back();
                    let f = self.press_walk_exec(&ids, event);
                    if !event.left {
                        self.end_window_drag();
                    }
                    f
                } else {
                    if !event.left {
                        self.set_dragging(DragMode::Idle);
                    }
                    None
                }
            },
        }
    }

    /// A button goes down or up: drags go on or end, the window under the
    /// pointer gets the button, and the window it concerns is focused.
    fn button_event(&mut self, event: ButtonEvent)
        requires
            old(self).wf(),
        ensures
            final(self).wf(),
            final(self)@ == spec_button_event(old(self)@, event),
    {
        proof {
            reveal(spec_button_event);
        }
        let focus = self.press(event);
        self.focus_pressed(focus);
        self.set_buttons(event);
    }

    /// The drag that a window asked for ends.
    fn end_window_drag(&mut self)
        requires
            old(self).wf(),
        ensures
            final(self).wf(),
            final(self)@ == (SchemeView { dragging_window_initiated: false, dragging: DragMode::Idle, ..old(self)@ }),
    {
        self.dragging_window_initiated = false;
        self.dragging = DragMode::Idle;
    }

    /// The window a button concerns, if any and not focused, is focused.
    fn focus_pressed(&mut self, focus: Option<usize>)
        requires
            old(self).wf(),
            focus matches Some(f) ==> old(self)@.windows.contains_key(f),
        ensures
            final(self).wf(),
            final(self)@ == match focus {
                Some(f) => if focused(old(self)@) != Some(f) {
                    spec_refocus(old(self)@, f)
                } else {
                    old(self)@
                },
                None => old(self)@,
            },
    {
        match focus {
            Some(f) => {
                let is_focused = match self.order.focused() {
                    Some(id) => id == f,
                    None => false,
                };
                if !is_focused {
                    self.refocus(f);
                }
            },
            None => {},
        }
    }

    /// The state of the buttons is kept.
    fn set_buttons(&mut self, event: ButtonEvent)
        requires
            old(self).wf(),
        ensures
            final(self).wf(),
            final(self)@ == (SchemeView {
                cursor_left: event.left,
                cursor_middle: event.middle,
                cursor_right: event.right,
                ..old(self)@
            }),
    {
        self.cursor_left = event.left;
        self.cursor_middle = event.middle;
        self.cursor_right = event.right;
    }

    /// The modifier keys held follow `scancode` going down or up.
    fn track_modifier_state(&mut self, scancode: u8, pressed: bool)
        requires
            old(self).wf(),
        ensures
            final(self).wf(),
            final(self)@ == (SchemeView {
                modifier_state: modifier_after(old(self)@.modifier_state, scancode, pressed),
                ..old(self)@
            }),
    {
        let m = self.modifier_state;
        let m1 = if scancode == K_SUPER {
            if pressed { m | SUPER_MODIFIER } else { m & !SUPER_MODIFIER }
        } else if scancode == K_LEFT_SHIFT {
            if pressed { m | SHIFT_LEFT_MODIFIER } else { m & !SHIFT_LEFT_MODIFIER }
        } else if scancode == K_RIGHT_SHIFT {
            if pressed { m | SHIFT_RIGHT_MODIFIER } else { m & !SHIFT_RIGHT_MODIFIER }
        } else if scancode == K_CTRL {
            if pressed { m | CONTROL_MODIFIER } else { m & !CONTROL_MODIFIER }
        } else if scancode == K_ALT {
            if pressed { m | ALT_MODIFIER } else { m & !ALT_MODIFIER }
        } else if scancode == K_ALT_GR {
            if pressed { m | ALT_GR_MODIFIER } else { m & !ALT_GR_MODIFIER }
        } else {
            m
        };
        let m2 = if m1 & SHIFT_LEFT_MODIFIER != 0 || m1 & SHIFT_RIGHT_MODIFIER != 0 {
            m1 | SHIFT_ANY_MODIFIER
        } else {
            m1 & !SHIFT_ANY_MODIFIER
        };
        let m3 = if m2 & ALT_MODIFIER != 0 || m2 & ALT_GR_MODIFIER != 0 {
            m2 | ALT_ANY_MODIFIER
        } else {
            m2 & !ALT_ANY_MODIFIER
        };
        self.modifier_state = m3;
    }

    /// The window list, the volume and the shortcuts overlays are hidden.
    fn close_overlays(&mut self)
        requires
            old(self).wf(),
        ensures
            final(self).wf(),
            final(self)@ == spec_close_overlays(old(self)@),
    {
        self.win_tabbing = false;
        self.volume_osd = false;
        self.shortcuts_enabled = false;
    }

    /// The focused window, if any, is asked to quit.
    fn quit_front_window(&mut self)
        requires
            old(self).wf(),
        ensures
            final(self).wf(),
            final(self)@ == spec_quit_front(old(self)@),
    {
        match self.order.focused() {
            Some(id) => self.push_event(id, QuitEvent.to_event()),
            None => {},
        }
    }

    /// The focused window, if any, is asked to carry out a clipboard request.
    fn clipboard_event(&mut self, kind: ClipboardAction)
        requires
            old(self).wf(),
        ensures
            final(self).wf(),
            final(self)@ == spec_clipboard_event(old(self)@, kind),
    {
        match self.order.focused() {
            Some(id) => {
                let size = if kind == ClipboardAction::Paste {
                    self.clipboard.len().saturating_sub(1)
                } else {
                    0
                };
                self.push_event(id, ClipboardEvent { kind, size }.to_event());
            },
            None => {},
        }
    }

    /// The focused window, if any, moves on the grid by `(h, v)` and stays
    /// on the first screen.
    fn move_front_window(&mut self, h: i32, v: i32)
        requires
            old(self).wf(),
            -GRID_SIZE <= h <= GRID_SIZE,
            -GRID_SIZE <= v <= GRID_SIZE,
        ensures
            final(self).wf(),
            final(self)@ == spec_move_front(old(self)@, h as int, v as int),
    {
        match self.order.focused() {
            Some(id) => match self.geometry(id) {
                Some((wx, wy, ww, wh)) => {
                    proof {
                        self.compositor.lemma_inv();
                        assert(screen_placed(self@.screens[0]));
                    }
                    let screen = self.compositor.screen_rect();
                    let display_width = screen.width();
                    let display_height = screen.height();
                    let x = clamp_exec(-ww + GRID_SIZE, display_width - GRID_SIZE, align_grid_exec(wx) + h);
                    let y = clamp_exec(-wh + GRID_SIZE, display_height - GRID_SIZE, align_grid_exec(wy) + v);
                    self.move_window(id, x, y);
                },
                None => {},
            },
            None => {},
        }
    }

    /// The focused window, if any, is tiled at `position`.
    fn tile_focused_window(&mut self, position: TilePosition)
        requires
            old(self).wf(),
        ensures
            final(self).wf(),
            final(self)@ == spec_tile_focused(old(self)@, position),
    {
        match self.order.focused() {
            Some(id) => self.tile_window(id, position),
            None => {},
        }
    }

    /// The titled windows in focus order.
    fn selectable_windows(&self) -> (r: Vec<usize>)
        requires
            self.wf(),
        ensures
            r@ == self@.focus.filter(titled(self@)),
    {
        let ids = self.order.focus_order();
        let ghost pred = titled(self@);
        let mut r: Vec<usize> = Vec::new();
        let mut i: usize = 0;
        while i < ids.len()
            invariant
                self.wf(),
                pred == titled(self@),
                ids@ == self@.focus,
                i <= ids@.len(),
                r@ == ids@.take(i as int).filter(pred),
            decreases ids@.len() - i,
        {
            let id = ids[i];
            proof {
                assert(ids@.take(i + 1) == ids@.take(i as int).push(id));
                ids@.take(i as int).lemma_filter_push(id, pred);
            }
            match self.windows.get(&id) {
                Some(window) => {
                    if !window.title.as_str().is_empty() {
                        r.push(id);
                    }
                },
                None => {},
            }
            i = i + 1;
        }
        proof {
            assert(ids@.take(ids@.len() as int) =~= ids@);
        }
        r
    }

    /// Super and tab: the window list shows, and the focus passes to the
    /// next titled window.
    fn super_tab(&mut self)
        requires
            old(self).wf(),
        ensures
            final(self).wf(),
            final(self)@ == spec_super_tab(old(self)@),
    {
        let ghost s0 = self@;
        let selectable = self.selectable_windows();
        self.show_window_list();
        if selectable.len() > 1 {
            let last = selectable[selectable.len() - 1];
            proof {
                assert(selectable@.last() == last);
                assert(selectable@.contains(last));
                s0.focus.lemma_filter_contains_rev(titled(s0), last);
            }
            self.cycle_focus(last);
        }
    }

    /// The window list shows.
    fn show_window_list(&mut self)
        requires
            old(self).wf(),
        ensures
            final(self).wf(),
            final(self)@ == (SchemeView { win_tabbing: true, ..old(self)@ }),
    {
        self.win_tabbing = true;
    }

    /// A drag going on ends, the focused window goes behind window `last`,
    /// and the focus passes to the new front window.
    fn cycle_focus(&mut self, last: usize)
        requires
            old(self).wf(),
            old(self)@.focus.contains(last),
        ensures
            final(self).wf(),
            final(self)@ == ({
                let s1 = SchemeView { dragging: DragMode::Idle, ..old(self)@ };
                let s2 = match focused(s1) {
                    Some(id) => spec_focus(s1, id, false),
                    None => s1,
                };
                let s3 = SchemeView { focus: spec_move_focused_after(s2.focus, last), ..s2 };
                match focused(s3) {
                    Some(id) => spec_focus(s3, id, true),
                    None => s3,
                }
            }),
    {
        self.set_dragging(DragMode::Idle);
        match self.order.focused() {
            Some(id) => self.focus(id, false),
            None => {},
        }
        self.move_focused_after(last);
        match self.order.focused() {
            Some(id) => self.focus(id, true),
            None => {},
        }
    }

    /// The front window of the focus order goes behind window `id`.
    fn move_focused_after(&mut self, id: usize)
        requires
            old(self).wf(),
            old(self)@.focus.contains(id),
        ensures
            final(self).wf(),
            final(self)@ == (SchemeView { focus: spec_move_focused_after(old(self)@.focus, id), ..old(self)@ }),
    {
        let ghost f0 = self@.focus;
        self.order.move_focused_after(id);
        proof {
            let f1 = spec_move_focused_after(f0, id);
            lemma_move_focused_after(f0, id);
            lemma_same_members(f0, f1);
            f0.lemma_multiset_has_no_duplicates();
            assert forall|x: usize| f1.to_multiset().contains(x) implies f1.to_multiset().count(x) == 1 by {
                assert(f0.to_multiset().contains(x));
            }
            f1.lemma_multiset_has_no_duplicates_conv();
        }
    }

    /// The window with the smallest id, if any.
    fn first_window_exec(&self) -> (r: Option<usize>)
        requires
            self.wf(),
        ensures
            r == first_window(self@),
    {
        let ids = self.order.focus_order();
        let ghost s = self@;
        let mut best: Option<usize> = None;
        let mut i: usize = 0;
        while i < ids.len()
            invariant
                self.wf(),
                s == self@,
                ids@ == s.focus,
                i <= ids@.len(),
                match best {
                    Some(m) => s.focus.contains(m) && forall|j: int| 0 <= j < i ==> m <= #[trigger] ids@[j],
                    None => i == 0,
                },
            decreases ids@.len() - i,
        {
            let id = ids[i];
            best = match best {
                Some(m) => if id < m {
                    Some(id)
                } else {
                    Some(m)
                },
                None => Some(id),
            };
            proof {
                match best {
                    Some(m) => {
                        assert(s.focus.contains(id)) by {
                            assert(s.focus[i as int] == id);
                        }
                    },
                    None => {},
                }
            }
            i = i + 1;
        }
        proof {
            match best {
                Some(m) => {
                    assert(s.windows.contains_key(m));
                    assert forall|k: usize| #[trigger] s.windows.contains_key(k) implies m <= k by {
                        assert(s.focus.contains(k));
                        let j = choose|j: int| 0 <= j < s.focus.len() && s.focus[j] == k;
                        assert(ids@[j] == k);
                    }
                    assert(is_first_window(s, m));
                    let c = choose|id: usize| is_first_window(s, id);
                    assert(is_first_window(s, c));
                    assert(c <= m && m <= c);
                },
                None => {
                    assert forall|id: usize| !is_first_window(s, id) by {
                        if s.windows.contains_key(id) {
                            assert(s.focus.contains(id));
                        }
                    }
                },
            }
        }
        best
    }

    /// The first part of a key event, as `spec_key_first` says.
    fn key_first(&mut self, event: KeyEvent) -> (r: Option<Volume>)
        requires
            old(self).wf(),
        ensures
            final(self).wf(),
            (r, final(self)@) == spec_key_first(old(self)@, event),
    {
        let sc = event.scancode;
        if sc == K_SUPER {
            if event.pressed {
                self.show_shortcuts();
            } else {
                self.close_overlays();
            }
            None
        } else if sc == K_VOLUME_TOGGLE || sc == K_VOLUME_DOWN || sc == K_VOLUME_UP {
            if event.pressed {
                Some(
                    if sc == K_VOLUME_TOGGLE {
                        Volume::Toggle
                    } else if sc == K_VOLUME_DOWN {
                        Volume::Down
                    } else {
                        Volume::Up
                    },
                )
            } else {
                self.hide_volume();
                None
            }
        } else {
            None
        }
    }

    /// The shortcuts overlay shows.
    fn show_shortcuts(&mut self)
        requires
            old(self).wf(),
        ensures
            final(self).wf(),
            final(self)@ == (SchemeView { shortcuts_enabled: true, ..old(self)@ }),
    {
        self.shortcuts_enabled = true;
    }

    /// The volume overlay hides.
    fn hide_volume(&mut self)
        requires
            old(self).wf(),
        ensures
            final(self).wf(),
            final(self)@ == (SchemeView { volume_osd: false, ..old(self)@ }),
    {
        self.volume_osd = false;
    }

    /// The simulated pointer is switched on or off.
    fn toggle_simulate(&mut self)
        requires
            old(self).wf(),
        ensures
            final(self).wf(),
            final(self)@ == (SchemeView { simulate_enabled: !old(self)@.simulate_enabled, ..old(self)@ }),
    {
        self.cursor_simulate_enabled = !self.cursor_simulate_enabled;
    }

    /// A key pressed with the super key held, as `super_combo` says.
    fn super_combo_exec(&mut self, event: KeyEvent) -> (r: KeyAction)
        requires
            old(self).wf(),
        ensures
            final(self).wf(),
            (r, final(self)@) == super_combo(old(self)@, event),
    {
        let sc = event.scancode;
        let shift = self.modifier_state & SHIFT_ANY_MODIFIER != 0;
        if sc == K_Q {
            self.quit_front_window();
        } else if sc == K_TAB {
            self.super_tab();
        } else if sc == K_NUM_0 {
            self.toggle_simulate();
        } else if sc == K_BRACE_OPEN {
            return KeyAction::Volume { change: Volume::Down, show: true };
        } else if sc == K_BRACE_CLOSE {
            return KeyAction::Volume { change: Volume::Up, show: true };
        } else if sc == K_BACKSLASH {
            return KeyAction::Volume { change: Volume::Toggle, show: true };
        } else if sc == K_M || sc == K_ENTER {
            self.tile_focused_window(TilePosition::Maximized);
        } else if sc == K_UP {
            if shift {
                self.tile_focused_window(TilePosition::TopHalf);
            } else {
                self.move_front_window(0, -GRID_SIZE);
            }
        } else if sc == K_DOWN {
            if shift {
                self.tile_focused_window(TilePosition::BottomHalf);
            } else {
                self.move_front_window(0, GRID_SIZE);
            }
        } else if sc == K_LEFT {
            if shift {
                self.tile_focused_window(TilePosition::LeftHalf);
            } else {
                self.move_front_window(-GRID_SIZE, 0);
            }
        } else if sc == K_RIGHT {
            if shift {
                self.tile_focused_window(TilePosition::RightHalf);
            } else {
                self.move_front_window(GRID_SIZE, 0);
            }
        } else if sc == K_C {
            self.clipboard_event(ClipboardAction::Copy);
        } else if sc == K_X {
            self.clipboard_event(ClipboardAction::Cut);
        } else if sc == K_V {
            self.clipboard_event(ClipboardAction::Paste);
        } else if sc == K_F10 {
            return KeyAction::ToggleDamageBorder;
        } else if sc == K_F12 {
            return KeyAction::ToggleFps;
        } else {
            match self.first_window_exec() {
                Some(id) => {
                    let mut super_event = event.to_event();
                    super_event.code = super_event.code + 0x1000_0000;
                    self.push_event(id, super_event);
                },
                None => {},
            }
        }
        KeyAction::Nothing
    }

    /// The key event up to the simulated pointer, as `spec_key_shortcuts`
    /// says.
    fn key_shortcuts(&mut self, event: KeyEvent) -> (r: KeyAction)
        requires
            old(self).wf(),
        ensures
            final(self).wf(),
            (r, final(self)@) == spec_key_shortcuts(old(self)@, event),
    {
        self.track_modifier_state(event.scancode, event.pressed);
        let volume = self.key_first(event);
        let combo = self.modifier_state & SUPER_MODIFIER == SUPER_MODIFIER && event.pressed && event.scancode
            != K_SUPER;
        let action = if combo {
            self.close_overlays();
            self.super_combo_exec(event)
        } else {
            KeyAction::Nothing
        };
        match volume {
            Some(v) => KeyAction::Volume { change: v, show: !combo },
            None => action,
        }
    }

    /// A key that drives the simulated pointer, as `spec_simulate` says.
    fn simulate_mouse_event(&mut self, event: KeyEvent)
        requires
            old(self).wf(),
            simulates(event),
            match simulated_target(old(self)@, event) {
                Some((x, y)) => in_pos(x) && in_pos(y) && drag_fits(old(self)@, x, y),
                None => true,
            },
        ensures
            final(self).wf(),
            final(self)@ == spec_simulate(old(self)@, event),
    {
        let sc = event.scancode;
        let cx = self.cursor_x;
        let cy = self.cursor_y;
        let d = self.cursor_simulate_speed;
        if event.pressed && sc == K_NUM_4 {
            self.mouse_event(MouseEvent { x: cx - d, y: cy });
        } else if event.pressed && sc == K_NUM_2 {
            self.mouse_event(MouseEvent { x: cx, y: cy + d });
        } else if event.pressed && sc == K_NUM_8 {
            self.mouse_event(MouseEvent { x: cx, y: cy - d });
        } else if event.pressed && sc == K_NUM_6 {
            self.mouse_event(MouseEvent { x: cx + d, y: cy });
        } else if sc == K_NUM_3 && event.pressed {
            if d > 2 {
                self.set_simulate_speed(d / 2);
            }
        } else if sc == K_NUM_9 && event.pressed {
            if d <= 128 {
                self.set_simulate_speed(d * 2);
            }
        } else if sc == K_NUM_5 {
            self.button_event(ButtonEvent { left: event.pressed, middle: false, right: false });
        } else if sc == K_NUM_7 {
            self.button_event(ButtonEvent { left: false, middle: event.pressed, right: false });
        } else {
            self.button_event(ButtonEvent { left: false, middle: false, right: event.pressed });
        }
    }

    /// The simulated pointer moves `d` pixels per step.
    fn set_simulate_speed(&mut self, d: i32)
        requires
            old(self).wf(),
            1 <= d <= 256,
        ensures
            final(self).wf(),
            final(self)@ == (SchemeView { simulate_speed: d as int, ..old(self)@ }),
    {
        self.cursor_simulate_speed = d;
    }

    /// The key goes to the focused window, as `spec_forward_key` says.
    fn forward_key(&mut self, event: KeyEvent)
        requires
            old(self).wf(),
        ensures
            final(self).wf(),
            final(self)@ == spec_forward_key(old(self)@, event),
    {
        if self.modifier_state & SUPER_MODIFIER == 0 {
            match self.order.focused() {
                Some(id) => {
                    if self.windows.contains_key(&id) {
                        if event.pressed && event.character != '\0' && self.modifier_state & (
                        CONTROL_MODIFIER | ALT_MODIFIER) == 0 {
                            self.push_event(id, TextInputEvent { character: event.character }.to_event());
                        }
                        self.push_event(
                            id,
                            KeyEvent { character: '\0', pressed: event.pressed, scancode: event.scancode }.to_event(),
                        );
                    }
                },
                None => {},
            }
        }
    }

    /// A key goes down or up: shortcuts act, then the key drives the
    /// simulated pointer or goes to the focused window. The result is what
    /// is left for the caller to do.
    #[verifier::rlimit(40)]
    #[verifier::spinoff_prover]
    pub fn key_event(&mut self, event: KeyEvent) -> (r: KeyAction)
        requires
            old(self).wf(),
            key_event_fits(old(self)@, event),
        ensures
            final(self).wf(),
            (r, final(self)@) == spec_key_event(old(self)@, event),
    {
        let action = self.key_shortcuts(event);
        let simulate = self.cursor_simulate_enabled && is_simulating_key(&event);
        if simulate {
            self.simulate_mouse_event(event);
        } else {
            self.forward_key(event);
        }
        action
    }

    /// The drawing order is recomputed from the focus order and the layers.
    fn rezbuffer(&mut self)
        requires
            old(self).wf(),
        ensures
            final(self).wf(),
            final(self)@ == spec_rezbuffer(old(self)@),
    {
        let ghost s0 = self@;
        let windows = &self.windows;
        let get_zorder = |id: usize| -> (z: WindowZOrder)
            requires
                windows@.contains_key(id),
            ensures
                z == windows@[id]@.zorder,
            { windows.get(&id).unwrap().zorder };
        proof {
            assert forall|i: int| 0 <= i < s0.focus.len() implies get_zorder.requires(
                (#[trigger] s0.focus[i],),
            ) by {
                assert(s0.focus.contains(s0.focus[i]));
            }
        }
        self.order.rezbuffer(get_zorder);
        proof {
            let zs = choose|zs: Seq<WindowZOrder>|
                {
                    &&& zs.len() == s0.focus.len()
                    &&& forall|i: int| 0 <= i < zs.len() ==> get_zorder.ensures((s0.focus[i],), #[trigger] zs[i])
                    &&& self.order.zbuffer() == layered(tagged(s0.focus, zs))
                };
            assert(zs =~= s0.focus.map_values(|id: usize| s0.windows[id].zorder)) by {
                assert forall|i: int| 0 <= i < zs.len() implies zs[i] == s0.windows[s0.focus[i]].zorder by {
                    assert(s0.focus.contains(s0.focus[i]));
                    assert(s0.windows.contains_key(s0.focus[i]));
                    assert(get_zorder.ensures((s0.focus[i],), zs[i]));
                }
            }
            assert(self@ =~= spec_rezbuffer(s0));
        }
    }

    /// The focused window, when it takes relative pointer moves.
    fn relative_window_exec(&self) -> (r: Option<usize>)
        requires
            self.wf(),
        ensures
            r == relative_window(self@),
    {
        match self.order.focused() {
            Some(id) => match self.windows.get(&id) {
                Some(w) => if w.mouse_relative {
                    Some(id)
                } else {
                    None
                },
                None => None,
            },
            None => None,
        }
    }

    /// Where a relative move takes the pointer.
    fn relative_target_exec(&self, event: MouseRelativeEvent) -> (r: (i32, i32))
        requires
            self.wf(),
            i32::MIN <= self@.cursor_x + event.dx <= i32::MAX,
            i32::MIN <= self@.cursor_y + event.dy <= i32::MAX,
        ensures
            (r.0 as int, r.1 as int) == relative_target(self@, event),
            in_pos(r.0 as int),
            in_pos(r.1 as int),
    {
        let ghost sv = self@.screens;
        proof {
            self.compositor.lemma_inv();
        }
        let n = self.compositor.screen_count();
        let mut max_x: i32 = 0;
        let mut max_y: i32 = 0;
        let mut i: usize = 0;
        while i < n
            invariant
                self.wf(),
                sv == self@.screens,
                sv == self.compositor.screens_view(),
                n == sv.len(),
                i <= n,
                (max_x as int, max_y as int) == screens_max(sv, i as int),
                0 <= max_x <= SCREEN_POS_BOUND + SCREEN_BOUND,
                0 <= max_y <= SCREEN_POS_BOUND + SCREEN_BOUND,
            decreases n - i,
        {
            let rect = self.compositor.screen(i);
            proof {
                assert(screen_placed(sv[i as int]));
            }
            let r = rect.right() - 1;
            let b = rect.bottom() - 1;
            if r > max_x {
                max_x = r;
            }
            if b > max_y {
                max_y = b;
            }
            i = i + 1;
        }
        let x = clamp_exec(0, max_x, self.cursor_x + event.dx);
        let mut y = clamp_exec(0, max_y, self.cursor_y + event.dy);
        let ghost y0 = y as int;
        let mut i: usize = 0;
        while i < n
            invariant
                self.wf(),
                sv == self@.screens,
                sv == self.compositor.screens_view(),
                n == sv.len(),
                i <= n,
                0 <= x <= SCREEN_POS_BOUND + SCREEN_BOUND,
                y as int == keep_on_screens(sv, i as int, x as int, y0),
                0 <= y <= SCREEN_POS_BOUND + SCREEN_BOUND,
            decreases n - i,
        {
            let rect = self.compositor.screen(i);
            proof {
                assert(screen_placed(sv[i as int]));
            }
            if x >= rect.left() && x < rect.right() {
                y = clamp_exec(rect.top(), rect.bottom() - 1, y);
            }
            i = i + 1;
        }
        (x, y)
    }

    /// A relative pointer move: a focused window that takes relative moves
    /// gets it and the pointer goes to its centre; else the pointer moves.
    fn mouse_relative_event(&mut self, event: MouseRelativeEvent)
        requires
            old(self).wf(),
            relative_fits(old(self)@, event),
        ensures
            final(self).wf(),
            final(self)@ == spec_mouse_relative(old(self)@, event),
    {
        match self.relative_window_exec() {
            Some(id) => {
                let (wx, wy, ww, wh) = self.geometry(id).unwrap();
                self.push_event(id, event.to_event());
                self.update_cursor(wx + ww / 2, wy + wh / 2, CursorKind::Invisible);
            },
            None => {
                let (x, y) = self.relative_target_exec(event);
                self.mouse_event(MouseEvent { x, y });
            },
        }
    }

    /// Where an absolute pointer position falls on the first screen.
    fn absolute_target_exec(&self, x: i32, y: i32) -> (r: (i32, i32))
        requires
            self.wf(),
            i32::MIN <= x * self@.screens[0].w <= i32::MAX,
            i32::MIN <= y * self@.screens[0].h <= i32::MAX,
        ensures
            (r.0 as int, r.1 as int) == absolute_target(self@, x, y),
            in_pos(r.0 as int),
            in_pos(r.1 as int),
    {
        proof {
            self.compositor.lemma_inv();
        }
        let screen = self.compositor.screen_rect();
        let w = screen.width();
        let h = screen.height();
        (div_trunc_exec(x * w, 65536), div_trunc_exec(y * h, 65536))
    }

    /// An input event from a device: the drawing order is recomputed; an
    /// event that would overflow (see `event_fits`) is dropped and the result
    /// is `None`; any other acts as `spec_event` says, and the result is what
    /// a key leaves for the caller to do.
    pub fn input_event(&mut self, event: Event) -> (r: Option<KeyAction>)
        requires
            old(self).wf(),
        ensures
            final(self).wf(),
            match r {
                Some(a) => event_fits(old(self)@, event) && (a, final(self)@) == spec_event(old(self)@, event),
                None => !event_fits(old(self)@, event) && final(self)@ == spec_rezbuffer(old(self)@),
            },
    {
        self.rezbuffer();
        proof {
            lemma_rezbuffer_twice(old(self)@, event);
        }
        if !self.fits_now(event) {
            return None;
        }
        Some(self.event(event))
    }

    /// Whether `event` fits, the drawing order being up to date.
    fn fits_now(&self, event: Event) -> (b: bool)
        requires
            self.wf(),
        ensures
            b == event_fits_at(self@, event),
    {
        proof {
            self.compositor.lemma_inv();
            assert(screen_placed(self@.screens[0]));
        }
        match decode_event(event) {
            InputEvent::Key(k) => {
                if !self.cursor_simulate_enabled || !k.pressed {
                    return true;
                }
                let (cx, cy, d) = (self.cursor_x, self.cursor_y, self.cursor_simulate_speed);
                let sc = k.scancode;
                let target = if sc == K_NUM_4 {
                    Some((cx - d, cy))
                } else if sc == K_NUM_2 {
                    Some((cx, cy + d))
                } else if sc == K_NUM_8 {
                    Some((cx, cy - d))
                } else if sc == K_NUM_6 {
                    Some((cx + d, cy))
                } else {
                    None
                };
                match target {
                    Some((x, y)) => -POS_BOUND <= x && x <= POS_BOUND && -POS_BOUND <= y && y <= POS_BOUND
                        && self.drag_fits_exec(x, y),
                    None => true,
                }
            },
            InputEvent::Mouse(m) => {
                let screen = self.compositor.screen_rect();
                let (sw, sh) = (screen.width() as i64, screen.height() as i64);
                let (mx, my) = (m.x as i64, m.y as i64);
                proof {
                    assert(-0x8000_0000 * 0x8000 <= mx * sw <= 0x8000_0000 * 0x8000) by (nonlinear_arith)
                        requires
                            0 <= sw <= 0x8000,
                            -0x8000_0000 <= mx < 0x8000_0000,
                    ;
                    assert(-0x8000_0000 * 0x8000 <= my * sh <= 0x8000_0000 * 0x8000) by (nonlinear_arith)
                        requires
                            0 <= sh <= 0x8000,
                            -0x8000_0000 <= my < 0x8000_0000,
                    ;
                }
                let px = mx * sw;
                let py = my * sh;
                if px < i32::MIN as i64 || px > i32::MAX as i64 || py < i32::MIN as i64 || py > i32::MAX as i64 {
                    return false;
                }
                let (x, y) = self.absolute_target_exec(m.x, m.y);
                self.drag_fits_exec(x, y)
            },
            InputEvent::MouseRelative(r) => match self.relative_window_exec() {
                Some(id) => match self.windows.get(&id) {
                    Some(w) => {
                        proof {
                            self.lemma_window_bounds(id);
                        }
                        w.event_fits(r.to_event())
                    },
                    None => true,
                },
                None => {
                    let x = self.cursor_x as i64 + r.dx as i64;
                    let y = self.cursor_y as i64 + r.dy as i64;
                    if x < i32::MIN as i64 || x > i32::MAX as i64 || y < i32::MIN as i64 || y > i32::MAX as i64 {
                        return false;
                    }
                    let (tx, ty) = self.relative_target_exec(r);
                    self.drag_fits_exec(tx, ty)
                },
            },
            InputEvent::Forward => {
                let ids = self.order.iter_front_to_back();
                if ids.len() == 0 {
                    return true;
                }
                match self.windows.get(&ids[0]) {
                    Some(w) => {
                        proof {
                            self.lemma_window_bounds(ids@[0]);
                        }
                        w.event_fits(event)
                    },
                    None => true,
                }
            },
            _ => true,
        }
    }

    /// An input event: the drawing order is recomputed, then the event acts
    /// as `spec_event` says. The result is what a key leaves for the caller
    /// to do.
    pub fn event(&mut self, event: Event) -> (r: KeyAction)
        requires
            old(self).wf(),
            event_fits(old(self)@, event),
        ensures
            final(self).wf(),
            (r, final(self)@) == spec_event(old(self)@, event),
    {
        self.rezbuffer();
        match decode_event(event) {
            InputEvent::Key(k) => self.key_event(k),
            InputEvent::Mouse(m) => {
                let (x, y) = self.absolute_target_exec(m.x, m.y);
                self.mouse_event(MouseEvent { x, y });
                KeyAction::Nothing
            },
            InputEvent::MouseRelative(r) => {
                self.mouse_relative_event(r);
                KeyAction::Nothing
            },
            InputEvent::Button(b) => {
                self.button_event(b);
                KeyAction::Nothing
            },
            InputEvent::Forward => {
                let ids = self.order.iter_front_to_back();
                if ids.len() > 0 {
                    self.push_event(ids[0], event);
                }
                KeyAction::Nothing
            },
            InputEvent::Other => KeyAction::Nothing,
        }
    }

    /// A new window at `(x, y)`, `width` by `height`, with `flags` set and
    /// the title `title`.
    fn build_window(&self, x: i32, y: i32, width: i32, height: i32, flags: &Vec<char>, title: String) -> (w: Window)
        requires
            self.wf(),
            size_fits(width as int, height as int),
        ensures
            w.wf(),
            w@ == new_window_view(self@, x as int, y as int, width as int, height as int, flags@, title@),
    {
        let mut window = Window::new(x, y, width, height, self.scale, share_config(&self.config));
        proof {
            let z = zeroed(aligned_len(width as int, height as int, PAGE_SIZE as int));
            assert forall|i: int| 0 <= i < z.len() implies window@.pixels[i] == z[i] by {
                assert(window.image_pixels()[i].data == 0);
            }
            assert(window@.pixels =~= z);
        }
        let ghost base = window@;
        let mut i: usize = 0;
        while i < flags.len()
            invariant
                i <= flags@.len(),
                window.wf(),
                window@ == flags_applied(base, flags@.take(i as int)),
            decreases flags@.len() - i,
        {
            proof {
                assert(flags@.take(i + 1).drop_last() =~= flags@.take(i as int));
            }
            window.set_flag(flags[i], true);
            i = i + 1;
        }
        proof {
            assert(flags@.take(flags@.len() as int) =~= flags@);
            reveal(new_window_view);
        }
        window.set_title(title);
        window
    }

    /// Whether the cascade square of `w` meets that of a visible window in
    /// its layer.
    fn collides_exec(&self, w: &Window) -> (b: bool)
        requires
            self.wf(),
            w.wf(),
            placed(w@),
        ensures
            b == collides(self@, w@),
    {
        let ids = self.order.focus_order();
        let ghost s = self@;
        proof {
            self.lemma_window_bounds_of(w);
            reveal(collides);
        }
        let cascade = w.cascade_rect();
        let mut i: usize = 0;
        while i < ids.len()
            invariant
                self.wf(),
                s == self@,
                ids@ == s.focus,
                i <= ids@.len(),
                w.wf(),
                placed(w@),
                cascade@ == w@.cascade_rect(),
                forall|j: int|
                    0 <= j < i ==> !(s.windows.contains_key(#[trigger] ids@[j]) && !s.windows[ids@[j]].hidden
                        && s.windows[ids@[j]].zorder == w@.zorder && !w@.cascade_rect().intersection(
                        s.windows[ids@[j]].cascade_rect(),
                    ).is_empty()),
            decreases ids@.len() - i,
        {
            let id = ids[i];
            match self.windows.get(&id) {
                Some(other) => {
                    proof {
                        self.lemma_window_bounds(id);
                        self.lemma_window_bounds_of(other);
                    }
                    if !other.hidden && other.zorder == w.zorder {
                        let oc = other.cascade_rect();
                        if !cascade.intersection(&oc).is_empty() {
                            proof {
                                reveal(collides);
                                assert(s.windows.contains_key(id) && !s.windows[id].hidden && s.windows[id].zorder
                                    == w@.zorder && !w@.cascade_rect().intersection(s.windows[id].cascade_rect()).is_empty());
                            }
                            return true;
                        }
                    }
                },
                None => {},
            }
            i = i + 1;
        }
        proof {
            assert forall|k: usize| #[trigger] s.windows.contains_key(k) implies !(!s.windows[k].hidden
                && s.windows[k].zorder == w@.zorder && !w@.cascade_rect().intersection(
                s.windows[k].cascade_rect(),
            ).is_empty()) by {
                assert(s.focus.contains(k));
                let j = choose|j: int| 0 <= j < s.focus.len() && s.focus[j] == k;
                assert(ids@[j] == k);
            }
        }
        false
    }

    /// Automatic placement of `w` from `center`, as `cascade` says.
    fn cascade_exec(&self, w: &mut Window, center: (i32, i32))
        requires
            self.wf(),
            old(w).wf(),
            placed(old(w)@),
            old(w)@.x == center.0,
            old(w)@.y == center.1,
            0 <= center.0 <= SCREEN_BOUND,
            0 <= center.1 <= SCREEN_BOUND,
        ensures
            final(w).wf(),
            placed(final(w)@),
            final(w)@ == (WindowView {
                x: cascade(self@, old(w)@, 0, (center.0 as int, center.1 as int), self@.screens[0]).0,
                y: cascade(self@, old(w)@, 0, (center.0 as int, center.1 as int), self@.screens[0]).1,
                ..old(w)@
            }),
    {
        let ghost w0 = w@;
        let ghost c = (center.0 as int, center.1 as int);
        let mut attempts: i32 = 0;
        let mut overlap = true;
        while overlap
            invariant
                self.wf(),
                w.wf(),
                placed(w@),
                0 <= attempts <= 1001,
                0 <= center.0 <= SCREEN_BOUND,
                0 <= center.1 <= SCREEN_BOUND,
                c == (center.0 as int, center.1 as int),
                0 <= w@.x <= SCREEN_BOUND,
                0 <= w@.y <= SCREEN_BOUND,
                w@ == (WindowView { x: w@.x, y: w@.y, ..w0 }),
                overlap ==> attempts <= 1000,
                cascade(self@, w0, 0, c, self@.screens[0]) == if overlap {
                    cascade(self@, w@, attempts as int, c, self@.screens[0])
                } else {
                    (w@.x, w@.y)
                },
            decreases 1002 - attempts, if overlap { 1int } else { 0int },
        {
            let (o, a) = self.cascade_step(w, attempts, center);
            overlap = o;
            attempts = a;
        }
    }

    /// One step of automatic placement: if the cascade square of `w` meets
    /// that of another window, `w` steps on (or gives up after 1000 steps).
    fn cascade_step(&self, w: &mut Window, attempts: i32, center: (i32, i32)) -> (r: (bool, i32))
        requires
            self.wf(),
            old(w).wf(),
            placed(old(w)@),
            0 <= attempts <= 1000,
            0 <= center.0 <= SCREEN_BOUND,
            0 <= center.1 <= SCREEN_BOUND,
            0 <= old(w)@.x <= SCREEN_BOUND,
            0 <= old(w)@.y <= SCREEN_BOUND,
        ensures
            final(w).wf(),
            placed(final(w)@),
            0 <= final(w)@.x <= SCREEN_BOUND,
            0 <= final(w)@.y <= SCREEN_BOUND,
            final(w)@ == (WindowView { x: final(w)@.x, y: final(w)@.y, ..old(w)@ }),
            attempts <= r.1 <= attempts + 1,
            r.0 ==> r.1 <= 1000,
            cascade(self@, old(w)@, attempts as int, (center.0 as int, center.1 as int), self@.screens[0])
                == if r.0 {
                cascade(self@, final(w)@, r.1 as int, (center.0 as int, center.1 as int), self@.screens[0])
            } else {
                (final(w)@.x, final(w)@.y)
            },
            !r.0 ==> r.1 == attempts || r.1 == attempts + 1,
            r.0 ==> r.1 == attempts + 1,
    {
        proof {
            self.compositor.lemma_inv();
            assert(screen_placed(self@.screens[0]));
            w.lemma_wf();
        }
        if !self.collides_exec(w) {
            return (false, attempts);
        }
        let screen = self.compositor.screen_rect();
        let sw = screen.width();
        let sh = screen.height();
        let th = w.title_rect().height();
        let mut x = w.x + 32;
        let mut y = w.y + 32;
        if x + w.width() > sw {
            x = 0;
        }
        if y + w.height() > sh {
            y = th;
        }
        let a = attempts + 1;
        if a > 1000 {
            w.set_position(center.0, center.1);
            return (false, a);
        }
        w.set_position(x, y);
        (true, a)
    }

    /// The next id moves on.
    fn bump_id(&mut self)
        requires
            old(self).wf(),
            old(self)@.next_id < isize::MAX - 1,
        ensures
            final(self).wf(),
            final(self)@ == (SchemeView { next_id: old(self)@.next_id + 1, ..old(self)@ }),
    {
        self.next_id = self.next_id + 1;
        if self.next_id < 0 {
            self.next_id = 1;
        }
    }

    /// The new window `window` joins as window `id`: it is redrawn, added to
    /// the focus order, and asked to take its size `width` by `height`.
    fn insert_window(&mut self, id: usize, window: Window, width: i32, height: i32)
        requires
            old(self).wf(),
            !old(self)@.windows.contains_key(id),
            id < old(self)@.next_id,
            window.wf(),
            placed(window@),
            0 <= width,
            0 <= height,
        ensures
            final(self).wf(),
            final(self)@ == (SchemeView {
                redraws: schedule_window(old(self)@.redraws, window@),
                focus: spec_add_window(old(self)@.focus, id, window@.zorder),
                windows: old(self)@.windows.insert(
                    id,
                    WindowView { events: queue_event(window@.events, resize_event(width as int, height as int)), ..window@ },
                ),
                ..old(self)@
            }),
    {
        let ghost s0 = self@;
        let ghost w0 = window@;
        let mut window = window;
        self.schedule_window_of(&window);
        self.order.add_window(id, window.zorder);
        window.event(ResizeEvent { width: width as u32, height: height as u32 }.to_event());
        let ghost m0 = self.windows@;
        self.windows.insert(id, window);
        proof {
            lemma_windows_insert(m0, id, window);
            assert(!s0.focus.contains(id));
            lemma_add_window_focus(s0.focus, id, window@.zorder);
            lemma_add_window_fresh(s0.focus, id, window@.zorder);
            let f1 = spec_add_window(s0.focus, id, window@.zorder);
            s0.focus.to_multiset_ensures();
            f1.to_multiset_ensures();
            assert forall|k: usize| self@.windows.contains_key(k) <==> f1.contains(k) by {
                vstd::seq_lib::to_multiset_contains(s0.focus, k);
                vstd::seq_lib::to_multiset_contains(f1, k);
                assert(s0.windows.contains_key(k) <==> s0.focus.contains(k));
            }
            assert forall|k: usize| #[trigger] self.windows@.contains_key(k) implies self.windows@[k].wf() by {
                if k != id {
                    assert(m0.contains_key(k));
                }
            }
            assert(self@.windows =~= s0.windows.insert(
                id,
                WindowView { events: queue_event(w0.events, resize_event(width as int, height as int)), ..w0 },
            ));
        }
    }

    /// A new window made and placed, as `spec_window_new` says, with the
    /// size it takes.
    fn prepare_window(&self, x: i32, y: i32, width: i32, height: i32, flags: &str, title: String) -> (r: (Window, i32, i32))
        requires
            self.wf(),
            size_fits(width as int, height as int),
            (x < 0 && y < 0) || (in_win(x as int) && in_win(y as int)),
        ensures
            r.0.wf(),
            placed(r.0@),
            (r.1 as int, r.2 as int) == new_window_size(self@, width as int, height as int, flags@),
            0 <= r.1,
            0 <= r.2,
            r.0@ == new_window_placed(self@, x as int, y as int, r.1 as int, r.2 as int, flags@, title@),
    {
        let flag_chars = str_chars(flags);
        let (w, h) = self.new_size(width, height, &flag_chars);
        let ghost t = title@;
        let mut window = self.build_window(x, y, w, h, &flag_chars, title);
        proof {
            lemma_new_window_view(self@, x as int, y as int, w as int, h as int, flag_chars@, t);
        }
        if x < 0 && y < 0 {
            self.auto_position(&mut window, w, h);
        }
        proof {
            reveal(new_window_placed);
        }
        (window, w, h)
    }

    /// The size a new window takes, as `new_window_size` says.
    fn new_size(&self, width: i32, height: i32, flags: &Vec<char>) -> (r: (i32, i32))
        requires
            self.wf(),
            size_fits(width as int, height as int),
        ensures
            (r.0 as int, r.1 as int) == new_window_size(self@, width as int, height as int, flags@),
            size_fits(r.0 as int, r.1 as int),
    {
        proof {
            self.compositor.lemma_inv();
            assert(screen_placed(self@.screens[0]));
        }
        let screen_rect = self.compositor.screen_rect();
        let allow_rect = self.compositor.get_window_rect_from_screen_rect(&screen_rect);
        if contains_char(flags, ORBITAL_FLAG_RESIZABLE) {
            let nw = if width < allow_rect.width() { width } else { allow_rect.width() };
            let nh = if height < allow_rect.height() { height } else { allow_rect.height() };
            assert(nw * nh <= width * height) by (nonlinear_arith)
                requires
                    0 <= nw <= width,
                    0 <= nh <= height,
            ;
            (nw, nh)
        } else {
            (width, height)
        }
    }

    /// Automatic placement of the new window `w`, `width` by `height`:
    /// centred in the area left for windows, then cascaded.
    fn auto_position(&self, w: &mut Window, width: i32, height: i32)
        requires
            self.wf(),
            old(w).wf(),
            old(w)@.width == width,
            old(w)@.height == height,
            0 <= width <= SIZE_LIMIT,
            0 <= height <= SIZE_LIMIT,
            1 <= old(w)@.scale <= SCALE_LIMIT,
            old(w)@.restore.is_none(),
        ensures
            final(w).wf(),
            placed(final(w)@),
            final(w)@ == (WindowView { x: auto_place(self@, old(w)@).0, y: auto_place(self@, old(w)@).1, ..old(w)@ }),
    {
        proof {
            self.compositor.lemma_inv();
            assert(screen_placed(self@.screens[0]));
        }
        let screen_rect = self.compositor.screen_rect();
        let allow_rect = self.compositor.get_window_rect_from_screen_rect(&screen_rect);
        let th = w.title_bar_height();
        let cx = div_trunc_exec(allow_rect.width() - width, 2);
        let cy = div_trunc_exec(allow_rect.height() - height, 2);
        let center_x = if 0 > cx { 0 } else { cx };
        let center_y = if th > cy { th } else { cy };
        let ghost w0 = w@;
        w.set_position(center_x, center_y);
        self.cascade_exec(w, (center_x, center_y));
        proof {
            reveal(auto_place);
        }
    }

    /// A new window, as `spec_window_new` says; the result is its id.
    fn window_new(&mut self, x: i32, y: i32, width: i32, height: i32, flags: &str, title: String) -> (id: usize)
        requires
            old(self).wf(),
            size_fits(width as int, height as int),
            (x < 0 && y < 0) || (in_win(x as int) && in_win(y as int)),
            old(self)@.next_id < isize::MAX - 1,
            drag_fits(old(self)@, old(self)@.cursor_x, old(self)@.cursor_y),
        ensures
            final(self).wf(),
            (id, final(self)@) == spec_window_new(old(self)@, x as int, y as int, width as int, height as int, flags@, title@),
    {
        let ghost s0 = self@;
        let id = self.next_id as usize;
        self.start_window_new();
        let ghost s2 = self@;
        let ghost t = title@;
        let (window, w, h) = self.prepare_window(x, y, width, height, flags, title);
        proof {
            assert(s2.screens == s0.screens);
            assert(new_window_size(s2, width as int, height as int, flags@) == new_window_size(s0, width as int, height as int, flags@));
        }
        let ghost w1 = window@;
        self.insert_window(id, window, w, h);
        assert(self@ == window_new_join(s2, id, w1, w as int, h as int));
        self.end_window_new();
        let ghost s5 = self@;
        proof {
            lemma_window_new_drag(s0, id, w1, w as int, h as int);
        }
        let cx = self.cursor_x;
        let cy = self.cursor_y;
        self.mouse_event(MouseEvent { x: cx, y: cy });
        proof {
            reveal(spec_window_new);
        }
        id
    }

    /// The next id moves on and the focused window loses the focus.
    fn start_window_new(&mut self)
        requires
            old(self).wf(),
            old(self)@.next_id < isize::MAX - 1,
        ensures
            final(self).wf(),
            final(self)@ == window_new_start(old(self)@),
    {
        self.bump_id();
        match self.order.focused() {
            Some(f) => self.focus(f, false),
            None => {},
        }
    }

    /// The front window gains the focus.
    fn end_window_new(&mut self)
        requires
            old(self).wf(),
        ensures
            final(self).wf(),
            final(self)@ == window_new_end(old(self)@),
    {
        match self.order.focused() {
            Some(f) => self.focus(f, true),
            None => {},
        }
    }

    /// The pixels of window `id`, shared with its client; a new mapping is
    /// counted. The client writes the window's pixels there.
    #[verifier::rlimit(50)]
    #[verifier::spinoff_prover]
    pub fn handle_window_map(&mut self, id: usize, create_new: bool) -> (r: Result<&mut [Color], SchemeError>)
        requires
            old(self).wf(),
            old(self)@.windows.contains_key(id) && create_new ==> old(self)@.windows[id].maps < usize::MAX,
        ensures
            r is Ok <==> old(self)@.windows.contains_key(id),
            match r {
                Ok(d) => {
                    let w = old(self)@.windows[id];
                    &&& d@ == w.pixels
                    &&& final(self)@ == (SchemeView {
                        windows: old(self)@.windows.insert(
                            id,
                            WindowView {
                                maps: if create_new {
                                    w.maps + 1
                                } else {
                                    w.maps
                                },
                                pixels: final(d)@,
                                ..w
                            },
                        ),
                        ..old(self)@
                    })
                },
                Err(e) => e == SchemeError::NoWindow && final(self)@ == old(self)@ && final(self).wf(),
            },
    {
        let ghost s0 = self@;
        if create_new {
            match self.count_mapping(id) {
                Ok(()) => {},
                Err(e) => {
                    return Err(e);
                },
            }
        }
        let ghost s1 = self@;
        match self.window_pixels(id) {
            Some(d) => {
                proof {
                    let ps = final(d)@;
                    assert(s1.windows.insert(id, WindowView { pixels: ps, ..s1.windows[id] }) =~= s0.windows.insert(
                        id,
                        WindowView {
                            maps: if create_new {
                                s0.windows[id].maps + 1
                            } else {
                                s0.windows[id].maps
                            },
                            pixels: ps,
                            ..s0.windows[id]
                        },
                    ));
                }
                Ok(d)
            },
            None => Err(SchemeError::NoWindow),
        }
    }

    /// The pixels of window `id`, for its client to write; the scheme then
    /// holds the window with what was written there.
    fn window_pixels(&mut self, id: usize) -> (r: Option<&mut [Color]>)
        requires
            old(self).wf(),
        ensures
            r is Some <==> old(self)@.windows.contains_key(id),
            match r {
                Some(d) => {
                    &&& d@ == old(self)@.windows[id].pixels
                    &&& final(self)@ == (SchemeView {
                        windows: old(self)@.windows.insert(
                            id,
                            WindowView { pixels: final(d)@, ..old(self)@.windows[id] },
                        ),
                        ..old(self)@
                    })
                },
                None => final(self)@ == old(self)@ && final(self).wf(),
            },
    {
        let ghost m0 = self.windows@;
        match window_mut(&mut self.windows, id) {
            Some(w) => {
                proof {
                    lemma_windows_insert(m0, id, *final(w));
                    assert(windows_view(m0)[id] == w@);
                }
                Some(w.map())
            },
            None => None,
        }
    }

    /// One more mapping of the pixels of window `id` is counted.
    fn count_mapping(&mut self, id: usize) -> (r: Result<(), SchemeError>)
        requires
            old(self).wf(),
            old(self)@.windows.contains_key(id) ==> old(self)@.windows[id].maps < usize::MAX,
        ensures
            final(self).wf(),
            match r {
                Ok(()) => old(self)@.windows.contains_key(id) && final(self)@ == (SchemeView {
                    windows: old(self)@.windows.insert(
                        id,
                        WindowView { maps: old(self)@.windows[id].maps + 1, ..old(self)@.windows[id] },
                    ),
                    ..old(self)@
                }),
                Err(e) => e == SchemeError::NoWindow && !old(self)@.windows.contains_key(id) && final(self)@
                    == old(self)@,
            },
    {
        match self.windows.get(&id) {
            Some(w) => {
                proof {
                    self.lemma_window_bounds(id);
                }
                let maps = w.maps + 1;
                self.set_maps_of(id, maps);
                Ok(())
            },
            None => Err(SchemeError::NoWindow),
        }
    }

    /// The mapping count of window `id` becomes `maps`.
    fn set_maps_of(&mut self, id: usize, maps: usize)
        requires
            old(self).wf(),
            old(self)@.windows.contains_key(id),
        ensures
            final(self).wf(),
            final(self)@ == (SchemeView {
                windows: old(self)@.windows.insert(id, WindowView { maps: maps as int, ..old(self)@.windows[id] }),
                ..old(self)@
            }),
    {
        let ghost s0 = self@;
        let ghost m0 = self.windows@;
        let ghost mut nw: Window = m0[id];
        match window_mut(&mut self.windows, id) {
            Some(w) => {
                proof {
                    assert(s0.windows[id] == w@);
                }
                w.set_maps(maps);
                proof {
                    nw = *w;
                }
            },
            None => {},
        }
        proof {
            lemma_windows_insert(m0, id, nw);
            lemma_replace_window(s0, id, nw@);
            assert(self@ =~= SchemeView { windows: s0.windows.insert(id, nw@), ..s0 });
            assert forall|k: usize| #[trigger] self.windows@.contains_key(k) implies self.windows@[k].wf() by {
                if k != id {
                    assert(m0.contains_key(k));
                }
            }
        }
    }

    /// A mapping of the pixels of window `id` ends; the count stays at zero
    /// when there is none.
    pub fn handle_window_unmap(&mut self, id: usize) -> (r: Result<(), SchemeError>)
        requires
            old(self).wf(),
        ensures
            final(self).wf(),
            match r {
                Ok(()) => old(self)@.windows.contains_key(id) && final(self)@ == (SchemeView {
                    windows: old(self)@.windows.insert(
                        id,
                        WindowView { maps: one_less(old(self)@.windows[id].maps), ..old(self)@.windows[id] },
                    ),
                    ..old(self)@
                }),
                Err(e) => e == SchemeError::NoWindow && !old(self)@.windows.contains_key(id) && final(self)@
                    == old(self)@,
            },
    {
        match self.windows.get(&id) {
            Some(w) => {
                proof {
                    self.lemma_window_bounds(id);
                }
                let maps = if w.maps > 0 {
                    w.maps - 1
                } else {
                    0
                };
                self.set_maps_of(id, maps);
                Ok(())
            },
            None => Err(SchemeError::NoWindow),
        }
    }

    /// Whether requests of window `id` wait for the next redraw: they do for
    /// an unknown window and for one that is not asynchronous.
    pub fn should_delay(&self, id: usize) -> (b: bool)
        requires
            self.wf(),
        ensures
            b == !(self@.windows.contains_key(id) && self@.windows[id].asynchronous),
    {
        match self.windows.get(&id) {
            Some(window) => !window.asynchronous,
            None => true,
        }
    }

    /// Window `id` gives its pending events, oldest first, as many as `buf`
    /// holds; the result is their number.
    #[verifier::rlimit(50)]
    pub fn handle_window_read(&mut self, id: usize, buf: &mut [Event]) -> (r: Result<usize, SchemeError>)
        requires
            old(self).wf(),
        ensures
            final(self).wf(),
            match r {
                Ok(n) => {
                    let w = old(self)@.windows[id];
                    &&& old(self)@.windows.contains_key(id)
                    &&& n == if w.events.len() < old(buf)@.len() {
                        w.events.len()
                    } else {
                        old(buf)@.len()
                    }
                    &&& final(buf)@ == w.events.take(n as int) + old(buf)@.skip(n as int)
                    &&& final(self)@ == (SchemeView {
                        windows: old(self)@.windows.insert(id, WindowView { events: w.events.skip(n as int), ..w }),
                        ..old(self)@
                    })
                },
                Err(e) => e == SchemeError::NoWindow && !old(self)@.windows.contains_key(id) && final(self)@
                    == old(self)@ && final(buf)@ == old(buf)@,
            },
    {
        let ghost s0 = self@;
        let ghost m0 = self.windows@;
        proof {
            if self.windows@.contains_key(id) {
                self.lemma_window_bounds(id);
            }
        }
        match self.windows.remove(&id) {
            Some(mut w) => {
                proof {
                    assert(m0.contains_key(id) && m0[id] == w);
                    assert(s0.windows[id] == w@);
                }
                let n = w.read(buf);
                self.put_window(id, w, Ghost(m0));
                Ok(n)
            },
            None => {
                proof {
                    assert(m0.remove(id) =~= m0);
                }
                Err(SchemeError::NoWindow)
            },
        }
    }

    /// The properties of window `id`: its flags, place, size and title.
    pub fn handle_window_properties(&self, id: usize) -> (r: Result<Properties<'_>, SchemeError>)
        requires
            self.wf(),
        ensures
            match r {
                Ok(p) => {
                    let w = self@.windows[id];
                    &&& self@.windows.contains_key(id)
                    &&& p.flags@ == w.flags()
                    &&& p.x == w.x
                    &&& p.y == w.y
                    &&& p.width == w.width
                    &&& p.height == w.height
                    &&& p.title@ == w.title
                },
                Err(e) => e == SchemeError::NoWindow && !self@.windows.contains_key(id),
            },
    {
        match self.windows.get(&id) {
            Some(window) => {
                proof {
                    assert(self@.windows[id] == window@);
                }
                Ok(window.properties())
            },
            None => Err(SchemeError::NoWindow),
        }
    }

    /// Window `id` asks to be asynchronous, or not.
    pub fn handle_window_async(&mut self, id: usize, is_async: bool) -> (r: Result<(), SchemeError>)
        requires
            old(self).wf(),
        ensures
            final(self).wf(),
            match r {
                Ok(()) => old(self)@.windows.contains_key(id) && final(self)@ == (SchemeView {
                    windows: old(self)@.windows.insert(id, WindowView { asynchronous: is_async, ..old(self)@.windows[id] }),
                    ..old(self)@
                }),
                Err(e) => e == SchemeError::NoWindow && !old(self)@.windows.contains_key(id) && final(self)@
                    == old(self)@,
            },
    {
        let ghost m0 = self.windows@;
        match self.windows.remove(&id) {
            Some(mut w) => {
                proof {
                    assert(m0.contains_key(id) && m0[id] == w);
                    assert(old(self)@.windows.contains_key(id));
                    assert(old(self)@.windows[id] == w@);
                }
                w.set_asynchronous(is_async);
                self.put_window(id, w, Ghost(m0));
                proof {
                    assert(self@.windows =~= old(self)@.windows.insert(id, WindowView { asynchronous: is_async, ..old(self)@.windows[id] }));
                }
                Ok(())
            },
            None => {
                proof {
                    assert(m0.remove(id) =~= m0);
                }
                Err(SchemeError::NoWindow)
            },
        }
    }

    /// Window `id` asks for the pointer to show over it, or not.
    pub fn handle_window_mouse_cursor(&mut self, id: usize, visible: bool) -> (r: Result<(), SchemeError>)
        requires
            old(self).wf(),
        ensures
            final(self).wf(),
            match r {
                Ok(()) => old(self)@.windows.contains_key(id) && final(self)@ == (SchemeView {
                    windows: old(self)@.windows.insert(id, WindowView { mouse_cursor: visible, ..old(self)@.windows[id] }),
                    ..old(self)@
                }),
                Err(e) => e == SchemeError::NoWindow && !old(self)@.windows.contains_key(id) && final(self)@
                    == old(self)@,
            },
    {
        let ghost m0 = self.windows@;
        match self.windows.remove(&id) {
            Some(mut w) => {
                proof {
                    assert(m0.contains_key(id) && m0[id] == w);
                    assert(old(self)@.windows.contains_key(id));
                    assert(old(self)@.windows[id] == w@);
                }
                w.set_mouse_cursor(visible);
                self.put_window(id, w, Ghost(m0));
                proof {
                    assert(self@.windows =~= old(self)@.windows.insert(id, WindowView { mouse_cursor: visible, ..old(self)@.windows[id] }));
                }
                Ok(())
            },
            None => {
                proof {
                    assert(m0.remove(id) =~= m0);
                }
                Err(SchemeError::NoWindow)
            },
        }
    }

    /// Window `id` asks to grab the pointer, or not.
    pub fn handle_window_mouse_grab(&mut self, id: usize, grab: bool) -> (r: Result<(), SchemeError>)
        requires
            old(self).wf(),
        ensures
            final(self).wf(),
            match r {
                Ok(()) => old(self)@.windows.contains_key(id) && final(self)@ == (SchemeView {
                    windows: old(self)@.windows.insert(id, WindowView { mouse_grab: grab, ..old(self)@.windows[id] }),
                    ..old(self)@
                }),
                Err(e) => e == SchemeError::NoWindow && !old(self)@.windows.contains_key(id) && final(self)@
                    == old(self)@,
            },
    {
        let ghost m0 = self.windows@;
        match self.windows.remove(&id) {
            Some(mut w) => {
                proof {
                    assert(m0.contains_key(id) && m0[id] == w);
                    assert(old(self)@.windows.contains_key(id));
                    assert(old(self)@.windows[id] == w@);
                }
                w.set_mouse_grab(grab);
                self.put_window(id, w, Ghost(m0));
                proof {
                    assert(self@.windows =~= old(self)@.windows.insert(id, WindowView { mouse_grab: grab, ..old(self)@.windows[id] }));
                }
                Ok(())
            },
            None => {
                proof {
                    assert(m0.remove(id) =~= m0);
                }
                Err(SchemeError::NoWindow)
            },
        }
    }

    /// Window `id` asks for relative pointer moves, or not.
    pub fn handle_window_mouse_relative(&mut self, id: usize, relative: bool) -> (r: Result<(), SchemeError>)
        requires
            old(self).wf(),
        ensures
            final(self).wf(),
            match r {
                Ok(()) => old(self)@.windows.contains_key(id) && final(self)@ == (SchemeView {
                    windows: old(self)@.windows.insert(id, WindowView { mouse_relative: relative, ..old(self)@.windows[id] }),
                    ..old(self)@
                }),
                Err(e) => e == SchemeError::NoWindow && !old(self)@.windows.contains_key(id) && final(self)@
                    == old(self)@,
            },
    {
        let ghost m0 = self.windows@;
        match self.windows.remove(&id) {
            Some(mut w) => {
                proof {
                    assert(m0.contains_key(id) && m0[id] == w);
                    assert(old(self)@.windows.contains_key(id));
                    assert(old(self)@.windows[id] == w@);
                }
                w.set_mouse_relative(relative);
                self.put_window(id, w, Ghost(m0));
                proof {
                    assert(self@.windows =~= old(self)@.windows.insert(id, WindowView { mouse_relative: relative, ..old(self)@.windows[id] }));
                }
                Ok(())
            },
            None => {
                proof {
                    assert(m0.remove(id) =~= m0);
                }
                Err(SchemeError::NoWindow)
            },
        }
    }

    /// Window `id` asks to be dragged with the pointer: only the hovered
    /// window may.
    pub fn handle_window_drag(&mut self, id: usize, mode: WindowDragKind) -> (r: Result<(), SchemeError>)
        requires
            old(self).wf(),
        ensures
            final(self).wf(),
            match r {
                Ok(()) => (old(self)@.hover == Some(id) ==> old(self)@.windows.contains_key(id))
                    && final(self)@ == spec_window_drag(old(self)@, id, mode),
                Err(e) => e == SchemeError::NoWindow && old(self)@.hover == Some(id) && !old(self)@.windows.contains_key(id)
                    && final(self)@ == old(self)@,
            },
    {
        let hovered = match self.hover {
            Some(h) => h == id,
            None => false,
        };
        if !hovered {
            return Ok(());
        }
        match self.geometry(id) {
            None => Err(SchemeError::NoWindow),
            Some((wx, wy, ww, wh)) => {
                let cx = self.cursor_x;
                let cy = self.cursor_y;
                let d = match mode {
                    WindowDragKind::Move => DragMode::Title(id, cx, cy),
                    WindowDragKind::ResizeTop => DragMode::TopBorder(id, cy - wy, wy + wh),
                    WindowDragKind::ResizeLeft => DragMode::LeftBorder(id, cx - wx, wx + ww),
                    WindowDragKind::ResizeRight => DragMode::RightBorder(id, cx - (wx + ww)),
                    WindowDragKind::ResizeBottom => DragMode::BottomBorder(id, cy - (wy + wh)),
                    WindowDragKind::Stop => DragMode::Idle,
                };
                self.set_dragging(d);
                self.mark_window_drag();
                Ok(())
            },
        }
    }

    /// The drag going on was asked for by a window.
    fn mark_window_drag(&mut self)
        requires
            old(self).wf(),
        ensures
            final(self).wf(),
            final(self)@ == (SchemeView { dragging_window_initiated: true, ..old(self)@ }),
    {
        self.dragging_window_initiated = true;
    }

    /// Window `id` asks to move; a coordinate not given stays.
    pub fn handle_window_position(&mut self, id: usize, x: Option<i32>, y: Option<i32>) -> (r: Result<(), SchemeError>)
        requires
            old(self).wf(),
            x matches Some(v) ==> in_win(v as int),
            y matches Some(v) ==> in_win(v as int),
        ensures
            final(self).wf(),
            match r {
                Ok(()) => {
                    let w = old(self)@.windows[id];
                    &&& old(self)@.windows.contains_key(id)
                    &&& final(self)@ == spec_update_window(
                        old(self)@,
                        id,
                        WindowView {
                            x: match x {
                                Some(v) => v as int,
                                None => w.x,
                            },
                            y: match y {
                                Some(v) => v as int,
                                None => w.y,
                            },
                            ..w
                        },
                    )
                },
                Err(e) => e == SchemeError::NoWindow && !old(self)@.windows.contains_key(id) && final(self)@
                    == old(self)@,
            },
    {
        match self.geometry(id) {
            Some((wx, wy, _, _)) => {
                let nx = match x {
                    Some(v) => v,
                    None => wx,
                };
                let ny = match y {
                    Some(v) => v,
                    None => wy,
                };
                self.place_window(id, nx, ny);
                Ok(())
            },
            None => Err(SchemeError::NoWindow),
        }
    }

    /// Window `id` asks for a new size; a size not given stays. A new size
    /// gives the window a new image that keeps the pixels both sizes share.
    pub fn handle_window_resize(&mut self, id: usize, w: Option<u32>, h: Option<u32>) -> (r: Result<(), SchemeError>)
        requires
            old(self).wf(),
            w matches Some(v) ==> v <= i32::MAX,
            h matches Some(v) ==> v <= i32::MAX,
            old(self)@.windows.contains_key(id) ==> size_fits(
                match w {
                    Some(v) => v as int,
                    None => old(self)@.windows[id].width,
                },
                match h {
                    Some(v) => v as int,
                    None => old(self)@.windows[id].height,
                },
            ),
        ensures
            final(self).wf(),
            match r {
                Ok(()) => {
                    let win = old(self)@.windows[id];
                    let nw = match w {
                        Some(v) => v as int,
                        None => win.width,
                    };
                    let nh = match h {
                        Some(v) => v as int,
                        None => win.height,
                    };
                    &&& old(self)@.windows.contains_key(id)
                    &&& final(self)@ == spec_update_window(
                        old(self)@,
                        id,
                        if nw == win.width && nh == win.height {
                            win
                        } else {
                            resized(win, nw, nh)
                        },
                    )
                },
                Err(e) => e == SchemeError::NoWindow && !old(self)@.windows.contains_key(id) && final(self)@
                    == old(self)@,
            },
    {
        match self.geometry(id) {
            Some((_, _, ww, wh)) => {
                let nw = match w {
                    Some(v) => v as i32,
                    None => ww,
                };
                let nh = match h {
                    Some(v) => v as i32,
                    None => wh,
                };
                if nw != ww || nh != wh {
                    self.resize_window(id, nw, nh);
                } else {
                    self.redraw_window(id);
                }
                Ok(())
            },
            None => Err(SchemeError::NoWindow),
        }
    }

    /// Window `id` gets a new title; its title bar is redrawn.
    pub fn handle_window_title(&mut self, id: usize, title: String) -> (r: Result<(), SchemeError>)
        requires
            old(self).wf(),
        ensures
            final(self).wf(),
            match r {
                Ok(()) => {
                    let w = WindowView { title: title@, ..old(self)@.windows[id] };
                    &&& old(self)@.windows.contains_key(id)
                    &&& final(self)@ == (SchemeView {
                        windows: old(self)@.windows.insert(id, w),
                        redraws: spec_schedule(old(self)@.redraws, w.title_rect()),
                        ..old(self)@
                    })
                },
                Err(e) => e == SchemeError::NoWindow && !old(self)@.windows.contains_key(id) && final(self)@
                    == old(self)@,
            },
    {
        let ghost s0 = self@;
        let ghost m0 = self.windows@;
        match self.windows.remove(&id) {
            Some(mut w) => {
                proof {
                    assert(m0.contains_key(id) && m0[id] == w);
                    assert(s0.windows.contains_key(id));
                    assert(s0.windows[id] == w@);
                }
                w.set_title(title);
                proof {
                    self.lemma_window_bounds_of(&w);
                }
                let title_rect = w.title_rect();
                self.compositor.schedule(title_rect);
                self.put_window(id, w, Ghost(m0));
                proof {
                    assert(self@.windows =~= s0.windows.insert(id, w@));
                }
                Ok(())
            },
            None => {
                proof {
                    assert(m0.remove(id) =~= m0);
                }
                Err(SchemeError::NoWindow)
            },
        }
    }

    /// Window `id` is redrawn after its client drew: the damaged parts it
    /// reports, relative to itself, or all of it.
    pub fn handle_window_sync(&mut self, id: usize, damages: Option<Vec<Rect>>) -> (r: Result<(), SchemeError>)
        requires
            old(self).wf(),
            damages matches Some(ds) ==> forall|i: int| 0 <= i < ds@.len() ==> damage_fits(#[trigger] ds@[i]@),
        ensures
            final(self).wf(),
            match r {
                Ok(()) => {
                    let rect = old(self)@.windows[id].rect();
                    &&& old(self)@.windows.contains_key(id)
                    &&& final(self)@ == with_redraws(
                        old(self)@,
                        match damages {
                            Some(ds) => damage_redraws(old(self)@.redraws, rect, ds@.map_values(|d: Rect| d@)),
                            None => spec_schedule(old(self)@.redraws, rect),
                        },
                    )
                },
                Err(e) => e == SchemeError::NoWindow && !old(self)@.windows.contains_key(id) && final(self)@
                    == old(self)@,
            },
    {
        let ghost s0 = self@;
        let rect = match self.windows.get(&id) {
            Some(window) => {
                proof {
                    self.lemma_window_bounds(id);
                    self.lemma_window_bounds_of(window);
                }
                window.rect()
            },
            None => {
                return Err(SchemeError::NoWindow);
            },
        };
        match damages {
            Some(ds) => {
                let ghost dv = ds@.map_values(|d: Rect| d@);
                let mut i: usize = 0;
                while i < ds.len()
                    invariant
                        self.wf(),
                        i <= ds@.len(),
                        dv == ds@.map_values(|d: Rect| d@),
                        forall|j: int| 0 <= j < ds@.len() ==> damage_fits(#[trigger] ds@[j]@),
                        rect@ == s0.windows[id].rect(),
                        boxed(rect@),
                        in_win(rect@.x),
                        in_win(rect@.y),
                        self@ == with_redraws(s0, damage_redraws(s0.redraws, rect@, dv.take(i as int))),
                    decreases ds@.len() - i,
                {
                    let d = ds[i];
                    proof {
                        assert(damage_fits(ds@[i as int]@));
                        assert(dv.take(i + 1).drop_last() =~= dv.take(i as int));
                        assert(dv.take(i + 1).last() == d@);
                    }
                    let moved_damage = d.offset(rect.left(), rect.top());
                    let dm = rect.intersection(&moved_damage);
                    self.schedule(dm);
                    i = i + 1;
                }
                proof {
                    assert(dv.take(ds@.len() as int) =~= dv);
                }
            },
            None => {
                self.schedule(rect);
            },
        }
        Ok(())
    }

    /// The client of window `id` read its events.
    pub fn handle_window_clear_notified(&mut self, id: usize) -> (r: Result<(), SchemeError>)
        requires
            old(self).wf(),
        ensures
            final(self).wf(),
            match r {
                Ok(()) => old(self)@.windows.contains_key(id) && final(self)@ == (SchemeView {
                    windows: old(self)@.windows.insert(id, WindowView { notified_read: false, ..old(self)@.windows[id] }),
                    ..old(self)@
                }),
                Err(e) => e == SchemeError::NoWindow && !old(self)@.windows.contains_key(id) && final(self)@
                    == old(self)@,
            },
    {
        let ghost m0 = self.windows@;
        match self.windows.remove(&id) {
            Some(mut w) => {
                proof {
                    assert(m0.contains_key(id) && m0[id] == w);
                    assert(old(self)@.windows.contains_key(id));
                    assert(old(self)@.windows[id] == w@);
                }
                w.set_notified_read(false);
                self.put_window(id, w, Ghost(m0));
                proof {
                    assert(self@.windows =~= old(self)@.windows.insert(id, WindowView { notified_read: false, ..old(self)@.windows[id] }));
                }
                Ok(())
            },
            None => {
                proof {
                    assert(m0.remove(id) =~= m0);
                }
                Err(SchemeError::NoWindow)
            },
        }
    }

    /// Window `id` wants flag `flag` set to `value`, as `spec_set_flag` says.
    pub fn handle_window_set_flag(&mut self, id: usize, flag: char, value: bool) -> (r: Result<(), SchemeError>)
        requires
            old(self).wf(),
        ensures
            final(self).wf(),
            match r {
                Ok(()) => old(self)@.windows.contains_key(id) && final(self)@ == spec_set_flag(old(self)@, id, flag, value),
                Err(e) => e == SchemeError::NoWindow && !old(self)@.windows.contains_key(id) && final(self)@
                    == old(self)@,
            },
    {
        let restore = match self.windows.get(&id) {
            Some(w) => w.restore.is_some(),
            None => {
                return Err(SchemeError::NoWindow);
            },
        };
        proof {
            self.lemma_window_bounds(id);
        }
        if flag == ORBITAL_FLAG_MAXIMIZED || flag == ORBITAL_FLAG_FULLSCREEN {
            self.tile_flag(id, flag == ORBITAL_FLAG_FULLSCREEN, value, restore);
        } else {
            self.flag_window(id, flag, value);
        }
        Ok(())
    }

    /// The maximized or (with `fullscreen`) full screen flag of window `id`
    /// is set to `value`: setting it tiles the window afresh, unsetting it
    /// puts a tiled window back; `restore` tells whether the window is tiled.
    fn tile_flag(&mut self, id: usize, fullscreen: bool, value: bool, restore: bool)
        requires
            old(self).wf(),
            old(self)@.windows.contains_key(id),
            restore == old(self)@.windows[id].restore.is_some(),
        ensures
            final(self).wf(),
            final(self)@ == spec_set_flag(
                old(self)@,
                id,
                if fullscreen {
                    ORBITAL_FLAG_FULLSCREEN
                } else {
                    ORBITAL_FLAG_MAXIMIZED
                },
                value,
            ),
    {
        let toggle_tile = if value {
            self.clear_restore(id);
            true
        } else {
            restore
        };
        if toggle_tile {
            self.tile_window(
                id,
                if fullscreen {
                    TilePosition::FullScreen
                } else {
                    TilePosition::Maximized
                },
            );
        }
    }

    /// Window `id` forgets the area it goes back to when untiled.
    fn clear_restore(&mut self, id: usize)
        requires
            old(self).wf(),
            old(self)@.windows.contains_key(id),
        ensures
            final(self).wf(),
            final(self)@ == (SchemeView {
                windows: old(self)@.windows.insert(id, WindowView { restore: None, ..old(self)@.windows[id] }),
                ..old(self)@
            }),
    {
        let ghost s0 = self@;
        let ghost m0 = self.windows@;
        let ghost mut nw: Window = m0[id];
        match window_mut(&mut self.windows, id) {
            Some(w) => {
                proof {
                    assert(s0.windows[id] == w@);
                }
                w.set_restore(None);
                proof {
                    nw = *w;
                }
            },
            None => {},
        }
        proof {
            lemma_windows_insert(m0, id, nw);
            lemma_replace_window(s0, id, nw@);
            assert(self@ =~= SchemeView { windows: s0.windows.insert(id, nw@), ..s0 });
            assert forall|k: usize| #[trigger] self.windows@.contains_key(k) implies self.windows@[k].wf() by {
                if k != id {
                    assert(m0.contains_key(k));
                }
            }
        }
    }

    /// Flag `flag` of window `id` is set to `value`; the window is redrawn
    /// before and after.
    fn flag_window(&mut self, id: usize, flag: char, value: bool)
        requires
            old(self).wf(),
            old(self)@.windows.contains_key(id),
        ensures
            final(self).wf(),
            final(self)@ == spec_update_window(old(self)@, id, flag_set(old(self)@.windows[id], flag, value)),
    {
        let ghost s0 = self@;
        let ghost m0 = self.windows@;
        let mut w = self.windows.remove(&id).unwrap();
        proof {
            assert(m0.contains_key(id) && m0[id] == w);
        }
        self.schedule_window_of(&w);
        w.set_flag(flag, value);
        self.schedule_window_of(&w);
        self.put_window(id, w, Ghost(m0));
        proof {
            let s1 = spec_update_window(s0, id, flag_set(s0.windows[id], flag, value));
            assert(self@.windows =~= s1.windows);
            assert(self@ =~= s1);
        }
    }

    /// Window `id` is closed, as `spec_close` says.
    pub fn handle_window_close(&mut self, id: usize)
        requires
            old(self).wf(),
            drag_fits(old(self)@, old(self)@.cursor_x, old(self)@.cursor_y),
        ensures
            final(self).wf(),
            final(self)@ == spec_close(old(self)@, id),
    {
        let ghost s0 = self@;
        match self.order.focused() {
            Some(f) => self.focus(f, false),
            None => {},
        }
        self.forget_window(id);
        match self.order.focused() {
            Some(f) => self.focus(f, true),
            None => {},
        }
        let ghost s4 = self@;
        proof {
            lemma_close_drag(s0, id);
        }
        let cx = self.cursor_x;
        let cy = self.cursor_y;
        self.mouse_event(MouseEvent { x: cx, y: cy });
        proof {
            reveal(spec_close);
        }
    }

    /// Window `id` leaves the focus order and the map, and is redrawn.
    fn forget_window(&mut self, id: usize)
        requires
            old(self).wf(),
        ensures
            final(self).wf(),
            final(self)@ == spec_forget_window(old(self)@, id),
    {
        let ghost s0 = self@;
        self.order.remove_window(id);
        let ghost m0 = self.windows@;
        match self.windows.remove(&id) {
            Some(w) => {
                proof {
                    assert(m0.contains_key(id) && m0[id] == w);
                    assert(s0.windows.contains_key(id));
                    assert(s0.windows[id] == w@);
                }
                self.schedule_window_of(&w);
            },
            None => {},
        }
        proof {
            let other: usize = if id == 0 {
                1
            } else {
                0
            };
            lemma_remove_window(s0.focus, id, other);
            assert forall|k: usize| self@.windows.contains_key(k) <==> self@.focus.contains(k) by {
                if k != id {
                    lemma_remove_window(s0.focus, id, k);
                    assert(s0.windows.contains_key(k) <==> s0.focus.contains(k));
                }
            }
            assert(self@.windows =~= if s0.windows.contains_key(id) {
                s0.windows.remove(id)
            } else {
                s0.windows
            });
            assert forall|k: usize| #[trigger] self.windows@.contains_key(k) implies self.windows@[k].wf() by {
                assert(m0.contains_key(k));
            }
        }
    }

    /// Reads the clipboard into `buf`: as many bytes as fit, but no more
    /// than lie past `offset`, taken from the start of the clipboard.
    pub fn handle_clipboard_read(&mut self, id: usize, offset: u64, buf: &mut [u8]) -> (r: Result<usize, SchemeError>)
        requires
            old(self).wf(),
        ensures
            final(self).wf(),
            final(self)@ == old(self)@,
            match r {
                Ok(n) => {
                    &&& n == clipboard_read_len(old(self)@.clipboard, offset as usize as int, old(buf)@.len() as int)
                    &&& final(buf)@ == old(self)@.clipboard.take(n as int) + old(buf)@.skip(n as int)
                },
                Err(_) => false,
            },
    {
        let ghost clip = self@.clipboard;
        let ghost b0 = buf@;
        let mut i: usize = 0;
        let mut offset = offset as usize;
        let ghost start = offset as int;
        while i < buf.len() && offset < self.clipboard.len()
            invariant
                clip == self.clipboard@,
                b0 == old(buf)@,
                buf@.len() == b0.len(),
                offset == start + i,
                0 <= start,
                i <= b0.len(),
                start >= clip.len() ==> i == 0,
                start < clip.len() ==> i <= clip.len() - start,
                buf@ == clip.take(i as int) + b0.skip(i as int),
            decreases b0.len() - i,
        {
            buf[i] = self.clipboard[i];
            proof {
                assert(buf@ =~= clip.take(i + 1) + b0.skip(i + 1));
            }
            i = i + 1;
            offset = offset + 1;
        }
        Ok(i)
    }

    /// Writes `buf` into the clipboard at `offset`: what lay from `offset`
    /// on is replaced. The result is the number of bytes written.
    pub fn handle_clipboard_write(&mut self, id: usize, offset: u64, buf: &[u8]) -> (r: Result<usize, SchemeError>)
        requires
            old(self).wf(),
            spec_min(offset as usize as int, old(self)@.clipboard.len() as int) + buf@.len() <= i64::MAX,
        ensures
            final(self).wf(),
            r == Ok::<usize, SchemeError>(buf@.len() as usize),
            final(self)@ == (SchemeView {
                clipboard: old(self)@.clipboard.take(spec_min(offset as usize as int, old(self)@.clipboard.len() as int))
                    + buf@,
                ..old(self)@
            }),
    {
        let ghost s0 = self@;
        let mut clipboard = self.take_clipboard();
        clipboard.truncate(offset as usize);
        let ghost kept = clipboard@;
        assert(kept == s0.clipboard.take(spec_min(offset as usize as int, s0.clipboard.len() as int)));
        let mut i: usize = 0;
        while i < buf.len()
            invariant
                i <= buf@.len(),
                clipboard@ == kept + buf@.take(i as int),
            decreases buf@.len() - i,
        {
            clipboard.push(buf[i]);
            proof {
                assert(clipboard@ =~= kept + buf@.take(i + 1));
            }
            i = i + 1;
        }
        proof {
            assert(buf@.take(buf@.len() as int) =~= buf@);
        }
        self.put_clipboard(clipboard);
        Ok(i)
    }

    /// Takes the clipboard out, leaving it empty.
    fn take_clipboard(&mut self) -> (c: Vec<u8>)
        requires
            old(self).wf(),
        ensures
            final(self).wf(),
            c@ == old(self)@.clipboard,
            final(self)@ == (SchemeView { clipboard: Seq::empty(), ..old(self)@ }),
    {
        let mut c: Vec<u8> = Vec::new();
        std::mem::swap(&mut c, &mut self.clipboard);
        c
    }

    /// The clipboard becomes `c`.
    fn put_clipboard(&mut self, c: Vec<u8>)
        requires
            old(self).wf(),
            c@.len() <= i64::MAX,
        ensures
            final(self).wf(),
            final(self)@ == (SchemeView { clipboard: c@, ..old(self)@ }),
    {
        self.clipboard = c;
    }

    /// A new window, as `spec_window_new` says; the result is its id.
    pub fn handle_window_new(&mut self, x: i32, y: i32, width: u32, height: u32, parts: &str, title: String) -> (r: Result<usize, SchemeError>)
        requires
            old(self).wf(),
            size_fits(width as int, height as int),
            (x < 0 && y < 0) || (in_win(x as int) && in_win(y as int)),
            old(self)@.next_id < isize::MAX - 1,
            drag_fits(old(self)@, old(self)@.cursor_x, old(self)@.cursor_y),
        ensures
            final(self).wf(),
            match r {
                Ok(id) => (id, final(self)@) == spec_window_new(
                    old(self)@,
                    x as int,
                    y as int,
                    width as int,
                    height as int,
                    parts@,
                    title@,
                ),
                Err(_) => false,
            },
    {
        Ok(self.window_new(x, y, width as i32, height as i32, parts, title))
    }

    /// Window `id`, to change, if there is one; the scheme then holds what
    /// the window becomes, and nothing else changes.
    pub fn get_window_mut(&mut self, id: usize) -> (r: Option<&mut Window>)
        requires
            old(self).wf(),
        ensures
            r is Some <==> old(self)@.windows.contains_key(id),
            match r {
                Some(w) => {
                    &&& w@ == old(self)@.windows[id]
                    &&& *w == old(self).window_map()[id]
                    &&& final(self).window_map() == old(self).window_map().insert(id, *final(w))
                    &&& final(self)@ == (SchemeView {
                        windows: old(self)@.windows.insert(id, final(w)@),
                        ..old(self)@
                    })
                },
                None => final(self)@ == old(self)@ && final(self).window_map() == old(self).window_map(),
            },
    {
        let ghost m0 = self.windows@;
        proof {
            assert forall|w: Window| #[trigger] windows_view(m0.insert(id, w)) == windows_view(m0).insert(id, w@) by {
                lemma_windows_insert(m0, id, w);
            }
        }
        window_mut(&mut self.windows, id)
    }

    /// A display server on the screens of `compositor`, with no window, the
    /// pointer at the origin showing the left pointer, and the cursor images
    /// of the sizes `cursor_sizes` (one for each kind, in the order of
    /// `CursorKind`).
    pub fn new(compositor: Compositor, config: Rc<Config>, scale: i32, cursor_sizes: Vec<(i32, i32)>) -> (r: OrbitalScheme)
        requires
            compositor.inv(),
            forall|i: int|
                0 <= i < compositor.screens_view().len() ==> screen_placed(#[trigger] compositor.screens_view()[i]),
            1 <= scale <= SCALE_LIMIT,
            cursor_sizes@.len() == 7,
            forall|i: int|
                0 <= i < 7 ==> 0 <= (#[trigger] cursor_sizes@[i]).0 <= CURSOR_LIMIT && 0 <= cursor_sizes@[i].1
                    <= CURSOR_LIMIT,
        ensures
            r.wf(),
            r@ == spec_update_cursor(
                SchemeView {
                    windows: Map::empty(),
                    focus: Seq::empty(),
                    zbuffer: Seq::empty(),
                    screens: compositor.screens_view(),
                    redraws: compositor.redraws_view(),
                    hw_cursor: compositor.spec_hw_cursor(),
                    cursor_image: compositor.spec_cursor(),
                    cursor_rect: compositor.spec_cursor_rect(),
                    cursor_state: compositor.cursor_state(),
                    cursor_updates: Seq::empty(),
                    cursor_sizes: cursor_sizes@,
                    scale: scale as int,
                    cursor_x: 0,
                    cursor_y: 0,
                    cursor_left: false,
                    cursor_middle: false,
                    cursor_right: false,
                    simulate_enabled: false,
                    simulate_speed: CURSOR_SIMULATE_SPEED as int,
                    dragging: DragMode::Idle,
                    dragging_window_initiated: false,
                    modifier_state: 0,
                    volume_value: 0,
                    volume_toggle: 0,
                    next_id: 1,
                    hover: None,
                    clipboard: Seq::empty(),
                    win_tabbing: false,
                    volume_osd: false,
                    shortcuts_enabled: false,
                    last_popup_rect: None,
                },
                0,
                0,
                CursorKind::LeftPtr,
            ),
    {
        let mut scheme = OrbitalScheme {
            compositor,
            scale,
            cursor_sizes,
            cursor_updates: Vec::new(),
            cursor_x: 0,
            cursor_y: 0,
            cursor_left: false,
            cursor_middle: false,
            cursor_right: false,
            cursor_simulate_enabled: false,
            cursor_simulate_speed: CURSOR_SIMULATE_SPEED,
            dragging: DragMode::Idle,
            dragging_window_initiated: false,
            modifier_state: 0,
            volume_value: 0,
            volume_toggle: 0,
            next_id: 1,
            hover: None,
            order: WindowOrder::new(),
            windows: BTreeMap::new(),
            clipboard: Vec::new(),
            config,
            win_tabbing: false,
            volume_osd: false,
            shortcuts_enabled: false,
            last_popup_rect: None,
        };
        proof {
            scheme.compositor.lemma_inv();
            assert(scheme@.windows =~= Map::empty());
        }
        scheme.update_cursor(0, 0, CursorKind::LeftPtr);
        scheme
    }

    /// The number of screens.
    pub fn display_count(&self) -> (n: usize)
        requires
            self.wf(),
        ensures
            n == self@.screens.len(),
    {
        self.compositor.screen_count()
    }

    /// The width, height and scale of screen `display`.
    pub fn display_size(&self, display: usize) -> (r: (u32, u32, i32))
        requires
            self.wf(),
            display < self@.screens.len(),
        ensures
            r.0 == self@.screens[display as int].w,
            r.1 == self@.screens[display as int].h,
            r.2 == self@.scale,
    {
        let rect = self.compositor.screen(display);
        (rect.width() as u32, rect.height() as u32, self.scale)
    }

    /// The volume changes from `value`, read from the audio device; the
    /// result is the new volume, to write back.
    pub fn volume_change(&mut self, volume: Volume, value: i32) -> (r: i32)
        requires
            old(self).wf(),
            volume == Volume::Down ==> value >= i32::MIN + 5,
            volume == Volume::Up ==> value <= i32::MAX - 5,
        ensures
            final(self).wf(),
            r == volume_after(volume, value as int, old(self)@.volume_toggle).0,
            final(self)@ == (SchemeView {
                volume_value: volume_after(volume, value as int, old(self)@.volume_toggle).0,
                volume_toggle: volume_after(volume, value as int, old(self)@.volume_toggle).1,
                ..old(self)@
            }),
    {
        self.volume_value = match volume {
            Volume::Down => if 0 > value - 5 { 0 } else { value - 5 },
            Volume::Up => if 100 < value + 5 { 100 } else { value + 5 },
            Volume::Toggle => if value == 0 {
                self.volume_toggle
            } else {
                self.volume_toggle = value;
                0
            },
        };
        self.volume_value
    }

    /// The volume overlay shows, once the new volume is written.
    pub fn volume_shown(&mut self)
        requires
            old(self).wf(),
        ensures
            final(self).wf(),
            final(self)@ == (SchemeView { volume_osd: true, ..old(self)@ }),
    {
        self.volume_osd = true;
    }

    /// The volume the overlay shows.
    pub fn volume_value(&self) -> (v: i32)
        requires
            self.wf(),
        ensures
            v == self@.volume_value,
    {
        self.volume_value
    }

    /// The overlay that shows above the windows.
    pub fn popup(&self) -> (p: Popup)
        requires
            self.wf(),
        ensures
            p == spec_popup(self@),
    {
        if self.shortcuts_enabled {
            Popup::Shortcuts
        } else if self.volume_osd {
            Popup::Volume
        } else if self.win_tabbing {
            Popup::WindowList
        } else {
            Popup::Nothing
        }
    }

    /// The titled windows the window list shows, in focus order; the list
    /// shows only with more than one.
    pub fn window_list(&self) -> (r: Vec<usize>)
        requires
            self.wf(),
        ensures
            r@ == self@.focus.filter(titled(self@)),
    {
        self.selectable_windows()
    }

    /// Places the popup of size `popup`, if any, as `spec_place_popup` says;
    /// the result is where it shows.
    pub fn place_popup(&mut self, popup: Option<(i32, i32)>, lazy: bool) -> (r: Option<Rect>)
        requires
            old(self).wf(),
            popup matches Some((w, h)) ==> 0 <= w <= SCREEN_BOUND && 0 <= h <= SCREEN_BOUND,
        ensures
            final(self).wf(),
            final(self)@ == spec_place_popup(old(self)@, popup, lazy),
            match popup {
                Some((w, h)) => r matches Some(rect) && rect@ == popup_rect(old(self)@, w as int, h as int),
                None => r is None,
            },
    {
        proof {
            self.compositor.lemma_inv();
            assert(screen_placed(self@.screens[0]));
        }
        match popup {
            None => {
                match self.last_popup_rect {
                    Some(last) => {
                        self.compositor.schedule(last);
                        self.last_popup_rect = None;
                    },
                    None => {},
                }
                None
            },
            Some((w, h)) => {
                let screen = self.compositor.screen_rect();
                let rect = Rect::new(screen.width() / 2 - w / 2, screen.height() / 2 - h / 2, w, h);
                let fresh = match self.last_popup_rect {
                    Some(last) => last.width() != rect.width() || last.height() != rect.height(),
                    None => true,
                };
                if !lazy || fresh {
                    self.last_popup_rect = Some(rect);
                    self.compositor.schedule(rect);
                }
                Some(rect)
            },
        }
    }

    /// A redraw: the drawing order is recomputed, and the pending redraws
    /// are taken, as `Compositor::redraw_windows` says; the result is the
    /// parts of the screens to draw, with their screens.
    pub fn redraw(&mut self, total: &mut Option<Rect>) -> (jobs: Vec<(usize, Rect)>)
        requires
            old(self).wf(),
            match *old(total) {
                Some(t) => boxed(t@),
                None => true,
            },
        ensures
            final(self).wf(),
            final(self)@ == with_redraws(spec_rezbuffer(old(self)@), Seq::empty()),
            view_opt(*final(total)) == grow_total(view_opt(*old(total)), old(self)@.redraws),
            jobs_view(jobs@) == redraw_jobs(old(self)@.redraws, old(self)@.screens),
    {
        self.rezbuffer();
        self.compositor.redraw_windows(total)
    }

    /// The windows from back to front, each with whether it is focused.
    pub fn windows_back_to_front(&self) -> (r: Vec<(usize, bool)>)
        requires
            self.wf(),
        ensures
            r@ == self@.zbuffer.map_values(|e: ZEntry| (e.0, e.2)).reverse(),
    {
        self.order.iter_back_to_front()
    }

    /// The windows themselves, by id.
    pub closed spec fn window_map(&self) -> Map<usize, Window> {
        self.windows@
    }

    /// Window `id`, if there is one.
    pub fn window(&self, id: usize) -> (r: Option<&Window>)
        requires
            self.wf(),
        ensures
            r is Some <==> self@.windows.contains_key(id),
            r is Some <==> self.window_map().contains_key(id),
            r matches Some(w) ==> w@ == self@.windows[id] && w.wf() && placed(w@) && *w == self.window_map()[id],
    {
        match self.windows.get(&id) {
            Some(w) => {
                proof {
                    self.lemma_window_bounds(id);
                }
                Some(w)
            },
            None => None,
        }
    }

    /// The hardware cursor changes asked for since the last call, oldest
    /// first; they are forgotten.
    pub fn take_cursor_updates(&mut self) -> (r: Vec<CursorUpdate>)
        requires
            old(self).wf(),
        ensures
            final(self).wf(),
            r@ == old(self)@.cursor_updates,
            final(self)@ == (SchemeView { cursor_updates: Seq::empty(), ..old(self)@ }),
    {
        let mut r: Vec<CursorUpdate> = Vec::new();
        std::mem::swap(&mut r, &mut self.cursor_updates);
        r
    }

    /// Whether a drag going on keeps its window within bounds where the
    /// pointer is.
    pub fn drag_fits_now(&self) -> (b: bool)
        requires
            self.wf(),
        ensures
            b == drag_fits(self@, self@.cursor_x, self@.cursor_y),
    {
        self.drag_fits_exec(self.cursor_x, self.cursor_y)
    }

    /// Whether a new window can be made: an id is left for it, and the drag
    /// going on keeps its window within bounds where the pointer is.
    pub fn can_add_window(&self) -> (b: bool)
        requires
            self.wf(),
        ensures
            b == (self@.next_id < isize::MAX - 1 && drag_fits(self@, self@.cursor_x, self@.cursor_y)),
    {
        self.next_id < isize::MAX - 1 && self.drag_fits_now()
    }

    /// The configuration the scheme was made with.
    pub closed spec fn spec_config(&self) -> Config {
        *self.config
    }

    /// The colour behind the windows.
    pub fn background_color(&self) -> (c: Color)
        ensures
            c.data == self.spec_config().background_color.value(),
    {
        Color::from(self.config.background_color)
    }

    /// The place of the cursor image shown, in the order of `CursorKind`.
    pub fn cursor_index(&self) -> (i: usize)
        requires
            self.wf(),
        ensures
            i == match self@.cursor_image {
                Some(k) => k as usize,
                None => 0,
            },
    {
        match self.compositor.cursor() {
            Some(k) => k as usize,
            None => 0,
        }
    }

    /// The rectangle the cursor image covers.
    pub fn cursor_rect(&self) -> (r: Rect)
        requires
            self.wf(),
        ensures
            r@ == self@.cursor_rect,
    {
        self.compositor.cursor_rect()
    }

    /// Whether the scheme can place windows on the screen `r`.
    pub fn screen_fits(r: &Rect) -> (b: bool)
        ensures
            b == screen_placed(r@),
    {
        let (x, y, w, h) = (r.left(), r.top(), r.width(), r.height());
        0 <= x && x <= SCREEN_POS_BOUND && 0 <= y && y <= SCREEN_POS_BOUND && 0 <= w && w
            <= SCREEN_BOUND && 0 <= h && h <= SCREEN_BOUND && h - 48 * (h / 1600 + 1) >= TITLE_HEIGHT
            * SCALE_LIMIT
    }

    /// The number of bytes in the clipboard.
    pub fn clipboard_len(&self) -> (n: usize)
        requires
            self.wf(),
        ensures
            n == self@.clipboard.len(),
    {
        self.clipboard.len()
    }

    /// Whether one more mapping of the pixels of window `id` can be counted.
    pub fn can_map(&self, id: usize) -> (b: bool)
        requires
            self.wf(),
        ensures
            b == (self@.windows.contains_key(id) ==> self@.windows[id].maps < usize::MAX),
    {
        match self.windows.get(&id) {
            Some(w) => {
                proof {
                    self.lemma_window_bounds(id);
                }
                w.maps < usize::MAX
            },
            None => true,
        }
    }

    /// Whether a drag going on keeps its window within bounds when the
    /// pointer goes to `(x, y)`.
    pub fn drag_fits_exec(&self, x: i32, y: i32) -> (b: bool)
        requires
            self.wf(),
        ensures
            b == drag_fits(self@, x as int, y as int),
    {
        let wb = WINDOW_BOUND as i64;
        let x = x as i64;
        let y = y as i64;
        match self.dragging {
            DragMode::Title(id, dx, dy) => match self.geometry(id) {
                Some((wx, wy, _, _)) => {
                    let nx = wx as i64 + x - dx as i64;
                    let ny = wy as i64 + y - dy as i64;
                    -wb <= nx && nx <= wb && -wb <= ny && ny <= wb
                },
                None => true,
            },
            DragMode::TopBorder(_, off_y, _) => -wb <= y - off_y as i64 && y - off_y as i64 <= wb,
            DragMode::LeftBorder(_, off_x, _) => -wb <= x - off_x as i64 && x - off_x as i64 <= wb,
            DragMode::BottomLeftBorder(_, off_x, _, _) => -wb <= x - off_x as i64 && x - off_x as i64 <= wb,
            _ => true,
        }
    }

    /// The title bar and then the area of `w` are scheduled for redraw.
    fn schedule_window_of(&mut self, w: &Window)
        requires
            old(self).compositor.inv(),
            w.wf(),
            placed(w@),
        ensures
            final(self).compositor.inv(),
            final(self).compositor.redraws_view() == schedule_window(old(self).compositor.redraws_view(), w@),
            final(self).compositor.screens_view() == old(self).compositor.screens_view(),
            final(self).compositor.spec_hw_cursor() == old(self).compositor.spec_hw_cursor(),
            final(self).compositor.spec_cursor() == old(self).compositor.spec_cursor(),
            final(self).compositor.spec_cursor_rect() == old(self).compositor.spec_cursor_rect(),
            final(self).compositor.cursor_state() == old(self).compositor.cursor_state(),
            *final(self) == (OrbitalScheme { compositor: final(self).compositor, ..*old(self) }),
    {
        proof {
            self.lemma_window_bounds_of(w);
        }
        let title = w.title_rect();
        let rect = w.rect();
        self.compositor.schedule(title);
        self.compositor.schedule(rect);
    }

    /// Puts window `id` back into the map it was taken out of, where it
    /// replaces the window it was.
    fn put_window(&mut self, id: usize, w: Window, Ghost(m0): Ghost<Map<usize, Window>>)
        requires
            old(self).windows@ == m0.remove(id),
            m0.contains_key(id),
            old(self).compositor.inv(),
            scheme_wf(SchemeView { windows: windows_view(m0), ..old(self)@ }),
            forall|k: usize| #[trigger] m0.contains_key(k) ==> m0[k].wf(),
            w.wf(),
            placed(w@),
        ensures
            final(self).wf(),
            final(self)@ == (SchemeView { windows: windows_view(m0).insert(id, w@), ..old(self)@ }),
    {
        self.windows.insert(id, w);
        proof {
            assert(m0.remove(id).insert(id, w) =~= m0.insert(id, w));
            lemma_windows_insert(m0, id, w);
            let sv = SchemeView { windows: windows_view(m0), ..old(self)@ };
            assert(sv.windows.contains_key(id));
            lemma_replace_window(sv, id, w@);
            assert(self@ =~= SchemeView { windows: windows_view(m0).insert(id, w@), ..old(self)@ });
            assert forall|k: usize| #[trigger] self.windows@.contains_key(k) implies self.windows@[k].wf() by {
                if k != id {
                    assert(m0.contains_key(k));
                }
            }
        }
    }

    /// What the bounds on a window give.
    proof fn lemma_window_bounds_of(&self, w: &Window)
        requires
            w.wf(),
            placed(w@),
        ensures
            boxed(w@.rect()),
            boxed(w@.title_rect()),
            w.spec_rect() == w@.rect(),
            w.spec_title_rect() == w@.title_rect(),
            w.title_fits(),
            w.borders_fit(),
            w.buttons_fit(),
    {
        w.lemma_wf();
    }

    /// The pointer moves to `(x, y)` and shows the cursor of `kind`.
    fn update_cursor(&mut self, x: i32, y: i32, kind: CursorKind)
        requires
            old(self).wf(),
            in_pos(x as int),
            in_pos(y as int),
        ensures
            final(self).wf(),
            final(self)@ == spec_update_cursor(old(self)@, x as int, y as int, kind),
    {
        let ghost s0 = self@;
        let idx = kind.to_index();
        let (w, h) = self.cursor_sizes[idx as usize];
        proof {
            assert(s0.cursor_sizes[idx as int] == (w, h));
            assert(0 <= w <= CURSOR_LIMIT && 0 <= h <= CURSOR_LIMIT);
        }
        let (hot_x, hot_y) = hot_spot(kind, w, h);
        let u = self.compositor.update_cursor(x, y, hot_x, hot_y, idx, w, h);
        self.cursor_x = x;
        self.cursor_y = y;
        match u {
            CursorUpdate::Software => {},
            _ => {
                self.cursor_updates.push(u);
            },
        }
        proof {
            let s1 = spec_update_cursor(s0, x as int, y as int, kind);
            assert(self@.cursor_updates =~= s1.cursor_updates);
            assert(self@ =~= s1);
        }
    }
}

/// A window that stays within bounds can replace one in a state.
/// Recomputing the drawing order twice gives what recomputing it once does,
/// and an event acts on the recomputed state as on the state before.
proof fn lemma_rezbuffer_twice(s0: SchemeView, e: Event)
    ensures
        spec_rezbuffer(spec_rezbuffer(s0)) == spec_rezbuffer(s0),
        event_fits(spec_rezbuffer(s0), e) == event_fits(s0, e),
        spec_event(spec_rezbuffer(s0), e) == spec_event(s0, e),
{
    assert(spec_rezbuffer(spec_rezbuffer(s0)) == spec_rezbuffer(s0));
}

proof fn lemma_replace_window(s: SchemeView, id: usize, w: WindowView)
    requires
        scheme_wf(s),
        s.windows.contains_key(id),
        placed(w),
    ensures
        scheme_wf(SchemeView { windows: s.windows.insert(id, w), ..s }),
{
    let s1 = SchemeView { windows: s.windows.insert(id, w), ..s };
    assert forall|k: usize| s1.windows.contains_key(k) <==> s1.focus.contains(k) by {
        assert(s.windows.contains_key(k) <==> s.focus.contains(k));
    }
    assert forall|k: usize| #[trigger] s1.windows.contains_key(k) implies placed(s1.windows[k]) && k < s1.next_id by {
        assert(s.windows.contains_key(k));
    }
}

/// One less than `n`, but not below zero.
pub open spec fn one_less(n: int) -> int {
    if n > 0 {
        n - 1
    } else {
        0
    }
}

/// Putting a window into the map puts its view into the map of views.
proof fn lemma_windows_insert(m: Map<usize, Window>, id: usize, w: Window)
    ensures
        windows_view(m.insert(id, w)) == windows_view(m).insert(id, w@),
{
    assert(windows_view(m.insert(id, w)) =~= windows_view(m).insert(id, w@));
}

/// The cursor for the point `(px, py)` on the resize borders of `w`.
fn border_cursor_exec(w: &Window, px: i32, py: i32) -> (r: Option<CursorKind>)
    requires
        w.wf(),
        placed(w@),
    ensures
        r == border_cursor(w@, px as int, py as int),
{
    proof {
        w.lemma_wf();
    }
    let l = w.left_border_rect().contains(px, py);
    let r = w.right_border_rect().contains(px, py);
    let b = w.bottom_border_rect().contains(px, py);
    if l && !r && !b {
        Some(CursorKind::LeftSide)
    } else if !l && r && !b {
        Some(CursorKind::RightSide)
    } else if !l && !r && b {
        Some(CursorKind::BottomSide)
    } else if l && !r && b {
        Some(CursorKind::BottomLeftCorner)
    } else if !l && r && b {
        Some(CursorKind::BottomRightCorner)
    } else {
        None
    }
}

/// Untiled window `w` remembers its area and moves to the tile `t` at
/// `position`, and is asked to take its size.
fn tile_to(w: &mut Window, t: (i32, i32, i32, i32), position: TilePosition)
    requires
        old(w).wf(),
        placed(old(w)@),
        old(w).restore.is_none(),
        in_win(t.0 as int),
        in_win(t.1 as int),
        0 <= t.2,
        0 <= t.3,
    ensures
        final(w).wf(),
        placed(final(w)@),
        final(w)@ == resize_asked(
            moved(WindowView { restore: Some((old(w)@.rect(), position)), ..old(w)@ }, t.0 as int, t.1 as int),
            t.2 as int,
            t.3 as int,
        ),
{
    proof {
        w.lemma_wf();
    }
    let rect = w.rect();
    w.set_restore(Some((rect, position)));
    w.move_to(t.0, t.1);
    w.event(ResizeEvent { width: t.2 as u32, height: t.3 as u32 }.to_event());
}

/// Tiled window `w` goes back to the area `r` it remembered, and is asked to
/// take its size.
fn untile(w: &mut Window, r: Rect)
    requires
        old(w).wf(),
        placed(old(w)@),
        old(w)@.restore matches Some((rv, _)) && rv == r@,
    ensures
        final(w).wf(),
        placed(final(w)@),
        final(w)@ == resize_asked(moved(WindowView { restore: None, ..old(w)@ }, r@.x, r@.y), r@.w, r@.h),
{
    w.set_restore(None);
    w.move_to(r.left(), r.top());
    w.event(ResizeEvent { width: r.width() as u32, height: r.height() as u32 }.to_event());
}

/// Sequences with the same elements, counted, hold the same elements.
proof fn lemma_same_members(a: Seq<usize>, b: Seq<usize>)
    requires
        a.to_multiset() == b.to_multiset(),
    ensures
        forall|x: usize| a.contains(x) <==> b.contains(x),
{
    assert forall|x: usize| a.contains(x) <==> b.contains(x) by {
        vstd::seq_lib::to_multiset_contains(a, x);
        vstd::seq_lib::to_multiset_contains(b, x);
        assert(a.to_multiset().count(x) == b.to_multiset().count(x));
    }
}

/// The drag that a press at `(px, py)` on the resize borders of `w` starts.
fn border_drag_exec(w: &Window, id: usize, px: i32, py: i32) -> (r: Option<DragMode>)
    requires
        w.wf(),
        placed(w@),
        in_pos(px as int),
        in_pos(py as int),
    ensures
        r == border_drag(w@, id, px as int, py as int),
        r matches Some(d) ==> drag_bounded(d),
{
    proof {
        w.lemma_wf();
    }
    let l = w.left_border_rect().contains(px, py);
    let r = w.right_border_rect().contains(px, py);
    let b = w.bottom_border_rect().contains(px, py);
    let right = w.x + w.width();
    let bottom = w.y + w.height();
    if l && !r && !b {
        Some(DragMode::LeftBorder(id, px - w.x, right))
    } else if !l && r && !b {
        Some(DragMode::RightBorder(id, px - right))
    } else if !l && !r && b {
        Some(DragMode::BottomBorder(id, py - bottom))
    } else if l && !r && b {
        Some(DragMode::BottomLeftBorder(id, px - w.x, py - bottom, right))
    } else if !l && r && b {
        Some(DragMode::BottomRightBorder(id, px - right, py - bottom))
    } else {
        None
    }
}

/// `v` moved to the grid line at or before it, towards zero.
fn align_grid_exec(v: i32) -> (r: i32)
    requires
        in_win(v as int),
    ensures
        r == align_grid(v as int),
        in_win(r as int),
{
    if v >= 0 {
        v - v % GRID_SIZE
    } else {
        let n = -v;
        v + n % GRID_SIZE
    }
}

/// `v` within `lo..=hi`, or `lo` when the range is empty.
fn clamp_exec(lo: i32, hi: i32, v: i32) -> (r: i32)
    ensures
        r == clamp(lo as int, hi as int, v as int),
{
    let m = if hi < v { hi } else { v };
    if lo > m { lo } else { m }
}

/// The key drives the simulated pointer.
fn is_simulating_key(ev: &KeyEvent) -> (b: bool)
    ensures
        b == simulates(*ev),
{
    let sc = ev.scancode;
    (ev.pressed && (sc == K_NUM_4 || sc == K_NUM_2 || sc == K_NUM_8 || sc == K_NUM_6 || sc == K_NUM_3
        || sc == K_NUM_9)) || sc == K_NUM_5 || sc == K_NUM_7 || sc == K_NUM_1
}

/// `a / b` rounded towards zero.
fn div_trunc_exec(a: i32, b: i32) -> (r: i32)
    requires
        b >= 2,
    ensures
        r == div_trunc(a as int, b as int),
{
    let wide = a as i64;
    let d = b as i64;
    if wide >= 0 {
        (wide / d) as i32
    } else {
        let n = -wide;
        let q = n / d;
        assert(q <= n / 2) by (nonlinear_arith)
            requires
                n >= 0,
                d >= 2,
                q == n / d,
        ;
        -(q as i32)
    }
}

/// Another handle on the shared configuration (`Rc::clone`); it points to
/// the same value.
#[verifier::external_body]
fn share_config(config: &Rc<Config>) -> (r: Rc<Config>)
    ensures
        r == *config,
{
    Rc::clone(config)
}

/// Setting flags leaves the place, size, scale, pixels and events of a
/// window as they are.
proof fn lemma_flags_applied(w: WindowView, flags: Seq<char>)
    ensures
        flags_applied(w, flags) == (WindowView {
            asynchronous: flags_applied(w, flags).asynchronous,
            borderless: flags_applied(w, flags).borderless,
            hidden: flags_applied(w, flags).hidden,
            resizable: flags_applied(w, flags).resizable,
            transparent: flags_applied(w, flags).transparent,
            unclosable: flags_applied(w, flags).unclosable,
            zorder: flags_applied(w, flags).zorder,
            ..w
        }),
    decreases flags.len(),
{
    if flags.len() > 0 {
        lemma_flags_applied(w, flags.drop_last());
    }
}

/// What a new window is made with.
proof fn lemma_new_window_view(s: SchemeView, x: int, y: int, width: int, height: int, flags: Seq<char>, title: Seq<char>)
    ensures
        new_window_view(s, x, y, width, height, flags, title).x == x,
        new_window_view(s, x, y, width, height, flags, title).y == y,
        new_window_view(s, x, y, width, height, flags, title).scale == s.scale,
        new_window_view(s, x, y, width, height, flags, title).width == width,
        new_window_view(s, x, y, width, height, flags, title).height == height,
        new_window_view(s, x, y, width, height, flags, title).restore.is_none(),
{
    let base = WindowView {
        x,
        y,
        scale: s.scale,
        title: Seq::empty(),
        asynchronous: false,
        borderless: false,
        hidden: false,
        resizable: false,
        transparent: false,
        unclosable: false,
        zorder: WindowZOrder::Normal,
        restore: None,
        width,
        height,
        pixels: zeroed(aligned_len(width, height, PAGE_SIZE as int)),
        events: Seq::empty(),
        notified_read: false,
        clipboard_seek: 0,
        mouse_cursor: true,
        mouse_grab: false,
        mouse_relative: false,
        maps: 0,
    };
    reveal(new_window_view);
    lemma_flags_applied(base, flags);
}

/// A drag that fits before a new window still fits after it: the dragged
/// window, which is not the new one, is where it was, and so is the pointer.
proof fn lemma_window_new_drag(s0: SchemeView, id: usize, w1: WindowView, w: int, h: int)
    requires
        scheme_wf(s0),
        id == s0.next_id,
        drag_fits(s0, s0.cursor_x, s0.cursor_y),
    ensures
        ({
            let s5 = window_new_end(window_new_join(window_new_start(s0), id, w1, w, h));
            drag_fits(s5, s5.cursor_x, s5.cursor_y)
        }),
{
    let s2 = window_new_start(s0);
    let s4 = window_new_join(s2, id, w1, w, h);
    let s5 = window_new_end(s4);
    assert forall|k: usize| k != id && s5.windows.contains_key(k) implies s0.windows.contains_key(k)
        && s5.windows[k].x == s0.windows[k].x && s5.windows[k].y == s0.windows[k].y by {
        assert(s4.windows.contains_key(k));
        assert(s2.windows.contains_key(k));
    }
    assert(drag_window(s0.dragging) < id);
}

/// A drag that fits before a window is closed still fits when the pointer
/// is handled after: the pointer has not moved, and a dragged window that is
/// left has not either.
proof fn lemma_close_drag(s0: SchemeView, id: usize)
    requires
        scheme_wf(s0),
        drag_fits(s0, s0.cursor_x, s0.cursor_y),
    ensures
        ({
            let s1 = match focused(s0) {
                Some(f) => spec_focus(s0, f, false),
                None => s0,
            };
            let s3 = spec_forget_window(s1, id);
            let s4 = match focused(s3) {
                Some(f) => spec_focus(s3, f, true),
                None => s3,
            };
            drag_fits(s4, s4.cursor_x, s4.cursor_y)
        }),
{
    let s1 = match focused(s0) {
        Some(f) => spec_focus(s0, f, false),
        None => s0,
    };
    let s3 = spec_forget_window(s1, id);
    let s4 = match focused(s3) {
        Some(f) => spec_focus(s3, f, true),
        None => s3,
    };
    assert forall|k: usize| s4.windows.contains_key(k) implies s0.windows.contains_key(k) && s4.windows[k].x
        == s0.windows[k].x && s4.windows[k].y == s0.windows[k].y by {
        assert(s3.windows.contains_key(k));
        assert(s1.windows.contains_key(k));
    }
}

/// Whether `c` is among `v`.
fn contains_char(v: &Vec<char>, c: char) -> (b: bool)
    ensures
        b == v@.contains(c),
{
    let mut i: usize = 0;
    while i < v.len()
        invariant
            i <= v@.len(),
            forall|j: int| 0 <= j < i ==> v@[j] != c,
        decreases v@.len() - i,
    {
        if v[i] == c {
            return true;
        }
        i = i + 1;
    }
    false
}

/// The window of a map, to change (`BTreeMap::get_mut`): when the id is in
/// the map, the window it holds, and the map then holds what the window
/// becomes; else nothing, and the map stays as it is.
#[verifier::external_body]
fn window_mut<'a>(windows: &'a mut BTreeMap<usize, Window>, id: usize) -> (r: Option<&'a mut Window>)
    ensures
        match r {
            Some(w) => {
                &&& old(windows)@.contains_key(id)
                &&& *w == old(windows)@[id]
                &&& final(windows)@ == old(windows)@.insert(id, *final(w))
            },
            None => !old(windows)@.contains_key(id) && final(windows)@ == old(windows)@,
        },
{
    windows.get_mut(&id)
}

/// The best screen for a rectangle is one of the screens.
proof fn lemma_best_screen_placed(screens: Seq<RectView>, rect: RectView, n: int)
    requires
        screens.len() > 0,
        n <= screens.len(),
        forall|i: int| 0 <= i < screens.len() ==> screen_placed(#[trigger] screens[i]),
    ensures
        screen_placed(best_from(screens, rect, n).0),
    decreases n,
{
    if n > 0 {
        lemma_best_screen_placed(screens, rect, n - 1);
        assert(screen_placed(screens[n - 1]));
    } else {
        assert(screen_placed(screens[0]));
    }
}

/// The hot spot of the cursor image of `kind`, `w` by `h` pixels.
fn hot_spot(kind: CursorKind, w: i32, h: i32) -> (r: (i32, i32))
    requires
        0 <= w <= CURSOR_LIMIT,
        0 <= h <= CURSOR_LIMIT,
    ensures
        (r.0 as int, r.1 as int) == kind.hot_spot(w as int, h as int),
        0 <= r.0 <= CURSOR_LIMIT,
        0 <= r.1 <= CURSOR_LIMIT,
{
    match kind {
        CursorKind::Invisible => (0, 0),
        CursorKind::LeftPtr => (0, 0),
        CursorKind::BottomLeftCorner => (0, h),
        CursorKind::BottomRightCorner => (w, h),
        CursorKind::BottomSide => (w / 2, h),
        CursorKind::LeftSide => (0, h / 2),
        CursorKind::RightSide => (w, h / 2),
    }
}

} // verus!
