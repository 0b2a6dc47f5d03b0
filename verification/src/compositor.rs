use crate::rect::{spec_max, spec_min, Rect, RectView};
use vstd::prelude::*;

verus! {

/// The bound on coordinates and sizes of the rectangles the compositor
/// handles: a third of `i32::MAX`, so that the container of any two
/// rectangles in the box from `-BOUND` to `2 * BOUND` still has a width and
/// a height that fit in `i32`.
pub const BOUND: i32 = 0x2AAA_AAAA;

/// The bound on the size of a screen; it keeps every area on a screen
/// within `i32`.
pub const SCREEN_BOUND: i32 = 0x8000;

/// A rectangle whose corner and size are within [`BOUND`].
pub open spec fn sane(r: RectView) -> bool {
    &&& -BOUND <= r.x <= BOUND
    &&& -BOUND <= r.y <= BOUND
    &&& 0 <= r.w <= BOUND
    &&& 0 <= r.h <= BOUND
}

/// A rectangle within the box that containers of sane rectangles stay in.
pub open spec fn boxed(r: RectView) -> bool {
    &&& r.wf()
    &&& -BOUND <= r.left()
    &&& r.right() <= 2 * BOUND
    &&& -BOUND <= r.top()
    &&& r.bottom() <= 2 * BOUND
}

/// A screen: at a non-negative place and at most [`SCREEN_BOUND`] wide and high.
pub open spec fn screen_sane(r: RectView) -> bool {
    &&& 0 <= r.x <= BOUND
    &&& 0 <= r.y <= BOUND
    &&& 0 <= r.w <= SCREEN_BOUND
    &&& 0 <= r.h <= SCREEN_BOUND
}

/// The value of an `i32` product or sum as the release build computes it.
pub open spec fn wrap32(v: int) -> int {
    let m = v % 0x1_0000_0000;
    if m >= 0x8000_0000 {
        m - 0x1_0000_0000
    } else {
        m
    }
}

/// The area of `r` as the release build computes it.
pub open spec fn area32(r: RectView) -> int {
    wrap32(r.w * r.h)
}

/// A pending redraw absorbs a request when their container, compared by area
/// as the release build computes it, is no larger than both together.
pub open spec fn absorbs(pending: RectView, request: RectView) -> bool {
    area32(pending.container(request)) <= wrap32(area32(pending) + area32(request))
}

/// The first pending redraw that absorbs the request, or the number of
/// pending redraws when none does.
pub open spec fn first_absorbing(redraws: Seq<RectView>, request: RectView) -> int
    decreases redraws.len(),
{
    if redraws.len() == 0 {
        0
    } else if absorbs(redraws[0], request) {
        0
    } else {
        1 + first_absorbing(redraws.drop_first(), request)
    }
}

/// The pending redraws after a request: the first one that absorbs it grows
/// into their container; if none does, the request is added.
pub open spec fn spec_schedule(redraws: Seq<RectView>, request: RectView) -> Seq<RectView> {
    let k = first_absorbing(redraws, request);
    if k < redraws.len() {
        redraws.update(k, redraws[k].container(request))
    } else {
        redraws.push(request)
    }
}

/// The screen area left for windows: the screen less the launcher bar, 48
/// pixels for each started 1600 pixels of height.
pub open spec fn spec_window_area(screen: RectView) -> RectView {
    RectView { x: screen.x, y: screen.y, w: screen.w, h: screen.h - 48 * (screen.h / 1600 + 1) }
}

/// How the hardware cursor must change.
pub enum CursorUpdate {
    /// The cursor is drawn in software: nothing to do in hardware.
    Software,
    /// Move the hardware cursor.
    Move { x: i32, y: i32 },
    /// Load a new cursor image with the given hot spot, then move it.
    SetAndMove { hot_x: i32, hot_y: i32, x: i32, y: i32 },
}

/// Which part of the screens to redraw, and where the cursor is.
pub struct Compositor {
    screens: Vec<Rect>,
    redraws: Vec<Rect>,
    hw_cursor: bool,
    cursor: Option<u8>,
    cursor_w: i32,
    cursor_h: i32,
    cursor_x: i32,
    cursor_y: i32,
    cursor_hot_x: i32,
    cursor_hot_y: i32,
}

impl Compositor {
    pub closed spec fn screens_view(&self) -> Seq<RectView> {
        self.screens@.map_values(|r: Rect| r@)
    }

    pub closed spec fn redraws_view(&self) -> Seq<RectView> {
        self.redraws@.map_values(|r: Rect| r@)
    }

    pub closed spec fn spec_hw_cursor(&self) -> bool {
        self.hw_cursor
    }

    /// The identity of the current cursor image (none before the first one).
    pub closed spec fn spec_cursor(&self) -> Option<u8> {
        self.cursor
    }

    /// The rectangle the cursor image covers.
    pub closed spec fn spec_cursor_rect(&self) -> RectView {
        RectView {
            x: self.cursor_x - self.cursor_hot_x,
            y: self.cursor_y - self.cursor_hot_y,
            w: self.cursor_w as int,
            h: self.cursor_h as int,
        }
    }

    pub closed spec fn cursor_state(&self) -> (int, int, int, int) {
        (self.cursor_x as int, self.cursor_y as int, self.cursor_hot_x as int, self.cursor_hot_y as int)
    }

    /// At least one screen; screens and pending redraws are within bounds, and
    /// so is the cursor.
    pub closed spec fn inv(&self) -> bool {
        &&& self.screens@.len() > 0
        &&& forall|i: int| 0 <= i < self.screens@.len() ==> screen_sane(#[trigger] self.screens@[i]@)
        &&& forall|i: int| 0 <= i < self.redraws@.len() ==> boxed(#[trigger] self.redraws@[i]@)
        &&& boxed(self.spec_cursor_rect())
        &&& -BOUND <= self.cursor_x <= BOUND
        &&& -BOUND <= self.cursor_y <= BOUND
    }

    /// What `inv` says of screens and redraws.
    pub proof fn lemma_inv(&self)
        requires
            self.inv(),
        ensures
            self.screens_view().len() > 0,
            forall|i: int| 0 <= i < self.screens_view().len() ==> screen_sane(#[trigger] self.screens_view()[i]),
            forall|i: int| 0 <= i < self.redraws_view().len() ==> boxed(#[trigger] self.redraws_view()[i]),
            boxed(self.spec_cursor_rect()),
    {
    }

    /// A compositor for the given screens, with every screen pending a redraw.
    pub fn new(screens: Vec<Rect>, hw_cursor: bool) -> (c: Compositor)
        requires
            screens@.len() > 0,
            forall|i: int| 0 <= i < screens@.len() ==> screen_sane(#[trigger] screens@[i]@),
        ensures
            c.inv(),
            c.screens_view() == screens@.map_values(|r: Rect| r@),
            c.redraws_view() == screens@.map_values(|r: Rect| r@),
            c.spec_hw_cursor() == hw_cursor,
            c.spec_cursor().is_none(),
            c.spec_cursor_rect() == (RectView { x: 0, y: 0, w: 0, h: 0 }),
    {
        let mut redraws: Vec<Rect> = Vec::new();
        let mut i: usize = 0;
        while i < screens.len()
            invariant
                i <= screens@.len(),
                redraws@ == screens@.take(i as int),
            decreases screens@.len() - i,
        {
            redraws.push(screens[i]);
            proof {
                assert(redraws@ =~= screens@.take(i + 1));
            }
            i = i + 1;
        }
        proof {
            assert(screens@.take(screens@.len() as int) == screens@);
        }
        Compositor {
            screens,
            redraws,
            hw_cursor,
            cursor: None,
            cursor_w: 0,
            cursor_h: 0,
            cursor_x: 0,
            cursor_y: 0,
            cursor_hot_x: 0,
            cursor_hot_y: 0,
        }
    }

    pub fn screen_count(&self) -> (n: usize)
        ensures
            n == self.screens_view().len(),
    {
        self.screens.len()
    }

    /// The rectangle of screen `i`.
    pub fn screen(&self, i: usize) -> (r: Rect)
        requires
            i < self.screens_view().len(),
        ensures
            r@ == self.screens_view()[i as int],
    {
        self.screens[i]
    }

    pub fn supports_hw_cursor(&self) -> (b: bool)
        ensures
            b == self.spec_hw_cursor(),
    {
        self.hw_cursor
    }

    /// The first screen.
    pub fn screen_rect(&self) -> (r: Rect)
        requires
            self.inv(),
        ensures
            r@ == self.screens_view()[0],
    {
        self.screens[0]
    }

    /// The screen that `rect` overlaps most: the first of those with the
    /// largest overlap, or the first screen when it overlaps none.
    pub fn get_screen_rect_for_window(&self, rect: &Rect) -> (r: Rect)
        requires
            self.inv(),
            rect@.edges_fit(),
        ensures
            r@ == best_screen(self.screens_view(), rect@),
    {
        let ghost sv = self.screens_view();
        let mut screen_rect = self.screens[0];
        let mut max_intersection_area: i32 = 0;
        let mut i: usize = 0;
        proof {
            assert(best_from(sv, rect@, 0) == (sv[0], 0int));
        }
        while i < self.screens.len()
            invariant
                self.inv(),
                sv == self.screens_view(),
                rect@.edges_fit(),
                i <= sv.len(),
                best_from(sv, rect@, i as int) == (screen_rect@, max_intersection_area as int),
            decreases sv.len() - i,
        {
            let display = self.screens[i];
            proof {
                assert(sv[i as int] == display@);
                assert(screen_sane(display@));
                lemma_overlap_area(display@, rect@);
            }
            let intersect = display.intersection(rect);
            let area = intersect.area();
            if area > max_intersection_area {
                screen_rect = display;
                max_intersection_area = area;
            }
            i = i + 1;
        }
        screen_rect
    }

    /// The area of `screen_rect` left for windows once the launcher bar is
    /// taken off its bottom.
    pub fn get_window_rect_from_screen_rect(&self, screen_rect: &Rect) -> (r: Rect)
        requires
            spec_window_area(screen_rect@).h >= 0,
        ensures
            r@ == spec_window_area(screen_rect@),
    {
        window_area(screen_rect)
    }

    /// Asks for `request` to be redrawn: the first pending redraw that absorbs
    /// it grows to hold it, else it is added.
    pub fn schedule(&mut self, request: Rect)
        requires
            old(self).inv(),
            boxed(request@),
        ensures
            final(self).inv(),
            final(self).redraws_view() == spec_schedule(old(self).redraws_view(), request@),
            final(self).screens_view() == old(self).screens_view(),
            final(self).spec_hw_cursor() == old(self).spec_hw_cursor(),
            final(self).spec_cursor() == old(self).spec_cursor(),
            final(self).spec_cursor_rect() == old(self).spec_cursor_rect(),
            final(self).cursor_state() == old(self).cursor_state(),
    {
        let ghost rv = self.redraws_view();
        let i = self.find_absorbing(&request);
        proof {
            self.lemma_inv();
        }
        if i < self.redraws.len() {
            let rect = self.redraws[i];
            proof {
                assert(rv[i as int] == rect@);
                assert(boxed(rect@));
                crate::rect::lemma_container_holds_both(rect@, request@);
            }
            let container = rect.container(&request);
            self.redraws.set(i, container);
            proof {
                assert(self.redraws@.map_values(|r: Rect| r@) =~= rv.update(i as int, container@));
                assert forall|j: int| 0 <= j < self.redraws@.len() implies boxed(#[trigger] self.redraws@[j]@) by {
                    if j == i {
                        assert(self.redraws@[j]@ == rect@.container(request@));
                    } else {
                        assert(self.redraws@[j]@ == rv[j]);
                    }
                }
            }
        } else {
            self.redraws.push(request);
            proof {
                assert(self.redraws@.map_values(|r: Rect| r@) =~= rv.push(request@));
                assert forall|j: int| 0 <= j < self.redraws@.len() implies boxed(#[trigger] self.redraws@[j]@) by {
                    if j < rv.len() {
                        assert(self.redraws@[j]@ == rv[j]);
                    }
                }
            }
        }
    }

    /// The index of the first pending redraw that absorbs `request`, or the
    /// number of pending redraws.
    fn find_absorbing(&self, request: &Rect) -> (k: usize)
        requires
            self.inv(),
            boxed(request@),
        ensures
            k == first_absorbing(self.redraws_view(), request@),
            k <= self.redraws_view().len(),
    {
        let ghost rv = self.redraws_view();
        let n = self.redraws.len();
        let mut i: usize = 0;
        while i < n
            invariant
                n == self.redraws@.len(),
                rv == self.redraws_view(),
                self.inv(),
                i <= n,
                boxed(request@),
                forall|j: int| 0 <= j < i ==> !absorbs(#[trigger] rv[j], request@),
            decreases n - i,
        {
            let rect = self.redraws[i];
            proof {
                assert(rv[i as int] == rect@);
                assert(boxed(rect@));
            }
            if absorbs_exec(&rect, request) {
                proof {
                    lemma_first_absorbing_at(rv, request@, i as int);
                }
                return i;
            }
            i = i + 1;
        }
        proof {
            lemma_first_absorbing_at(rv, request@, n as int);
        }
        n
    }

    /// The cursor image shown, if any.
    pub fn cursor(&self) -> (c: Option<u8>)
        ensures
            c == self.spec_cursor(),
    {
        self.cursor
    }

    /// The rectangle the cursor image covers.
    pub fn cursor_rect(&self) -> (r: Rect)
        requires
            self.inv(),
        ensures
            r@ == self.spec_cursor_rect(),
    {
        Rect::new(
            self.cursor_x - self.cursor_hot_x,
            self.cursor_y - self.cursor_hot_y,
            self.cursor_w,
            self.cursor_h,
        )
    }

    /// Moves the cursor to `(x, y)` with the image `cursor` of size `w` by
    /// `h` and hot spot `(hot_x, hot_y)`. A software cursor has its old and
    /// new places redrawn; a hardware cursor is moved, after loading the image
    /// when it or its hot spot changed.
    pub fn update_cursor(&mut self, x: i32, y: i32, hot_x: i32, hot_y: i32, cursor: u8, w: i32, h: i32) -> (u: CursorUpdate)
        requires
            old(self).inv(),
            -BOUND <= x <= BOUND,
            -BOUND <= y <= BOUND,
            0 <= hot_x <= BOUND,
            0 <= hot_y <= BOUND,
            0 <= w <= BOUND,
            0 <= h <= BOUND,
            boxed(RectView { x: x - hot_x, y: y - hot_y, w: w as int, h: h as int }),
        ensures
            final(self).inv(),
            final(self).spec_cursor() == Some(cursor),
            final(self).spec_cursor_rect() == (RectView { x: x - hot_x, y: y - hot_y, w: w as int, h: h as int }),
            final(self).cursor_state() == (x as int, y as int, hot_x as int, hot_y as int),
            final(self).screens_view() == old(self).screens_view(),
            final(self).spec_hw_cursor() == old(self).spec_hw_cursor(),
            final(self).redraws_view() == if old(self).spec_hw_cursor() {
                old(self).redraws_view()
            } else {
                spec_schedule(
                    spec_schedule(old(self).redraws_view(), old(self).spec_cursor_rect()),
                    final(self).spec_cursor_rect(),
                )
            },
            match u {
                CursorUpdate::Software => !old(self).spec_hw_cursor(),
                CursorUpdate::Move { x: mx, y: my } => old(self).spec_hw_cursor() && mx == x && my == y
                    && old(self).spec_cursor() == Some(cursor) && old(self).cursor_state().2 == hot_x
                    && old(self).cursor_state().3 == hot_y,
                CursorUpdate::SetAndMove { hot_x: hx, hot_y: hy, x: mx, y: my } => old(self).spec_hw_cursor()
                    && hx == hot_x && hy == hot_y && mx == x && my == y && !(old(self).spec_cursor()
                    == Some(cursor) && old(self).cursor_state().2 == hot_x && old(self).cursor_state().3
                    == hot_y),
            },
    {
        if !self.hw_cursor {
            let r = self.cursor_rect();
            self.schedule(r);
        }
        let update = if self.hw_cursor {
            let same = match self.cursor {
                Some(c) => c == cursor,
                None => false,
            };
            if same && self.cursor_hot_x == hot_x && self.cursor_hot_y == hot_y {
                CursorUpdate::Move { x, y }
            } else {
                CursorUpdate::SetAndMove { hot_x, hot_y, x, y }
            }
        } else {
            CursorUpdate::Software
        };
        self.cursor_x = x;
        self.cursor_y = y;
        self.cursor_hot_x = hot_x;
        self.cursor_hot_y = hot_y;
        self.cursor = Some(cursor);
        self.cursor_w = w;
        self.cursor_h = h;
        if !self.hw_cursor {
            let r = self.cursor_rect();
            self.schedule(r);
        }
        update
    }

    /// Takes the pending redraws. For each, in order, `total` grows to hold it
    /// (unless it is empty) and every non-empty part of it on a screen is
    /// returned with the index of that screen, to be redrawn.
    pub fn redraw_windows(&mut self, total: &mut Option<Rect>) -> (jobs: Vec<(usize, Rect)>)
        requires
            old(self).inv(),
            match *old(total) {
                Some(t) => boxed(t@),
                None => true,
            },
        ensures
            final(self).inv(),
            final(self).redraws_view() == Seq::<RectView>::empty(),
            final(self).screens_view() == old(self).screens_view(),
            final(self).spec_hw_cursor() == old(self).spec_hw_cursor(),
            final(self).spec_cursor() == old(self).spec_cursor(),
            final(self).spec_cursor_rect() == old(self).spec_cursor_rect(),
            final(self).cursor_state() == old(self).cursor_state(),
            view_opt(*final(total)) == grow_total(view_opt(*old(total)), old(self).redraws_view()),
            jobs_view(jobs@) == redraw_jobs(
                old(self).redraws_view(),
                old(self).screens_view(),
            ),
    {
        let ghost rv = self.redraws_view();
        let ghost sv = self.screens_view();
        let mut jobs: Vec<(usize, Rect)> = Vec::new();
        let n = self.redraws.len();
        let mut i: usize = 0;
        proof {
            assert(rv.take(0) =~= Seq::<RectView>::empty());
        }
        while i < n
            invariant
                n == self.redraws@.len(),
                rv == self.redraws_view(),
                sv == self.screens_view(),
                self.inv(),
                i <= n,
                match *total {
                    Some(t) => boxed(t@),
                    None => true,
                },
                view_opt(*total) == grow_total(view_opt(*old(total)), rv.take(i as int)),
                jobs_view(jobs@) == redraw_jobs(rv.take(i as int), sv),
            decreases n - i,
        {
            let pending = self.redraws[i];
            proof {
                assert(rv[i as int] == pending@);
                assert(boxed(pending@));
                assert(rv.take(i + 1).drop_last() == rv.take(i as int));
                assert(rv.take(i + 1).last() == pending@);
            }
            if !pending.is_empty() {
                let grown = match total {
                    Some(t) => t.container(&pending),
                    None => pending,
                };
                proof {
                    match *total {
                        Some(t) => {
                            crate::rect::lemma_container_holds_both(t@, pending@);
                        },
                        None => {},
                    }
                }
                *total = Some(grown);
            }
            let ghost before = jobs@;
            let m = self.screens.len();
            let mut d: usize = 0;
            while d < m
                invariant
                    m == self.screens@.len(),
                    sv == self.screens_view(),
                    self.inv(),
                    d <= m,
                    boxed(pending@),
                    jobs_view(jobs@) == jobs_view(before) + screen_jobs(pending@, sv.take(d as int)),
                decreases m - d,
            {
                let screen = self.screens[d];
                proof {
                    assert(sv[d as int] == screen@);
                    assert(screen_sane(screen@));
                    assert(sv.take(d + 1).drop_last() == sv.take(d as int));
                    assert(sv.take(d + 1).last() == screen@);
                }
                let rect = pending.intersection(&screen);
                let ghost prev = jobs@;
                if !rect.is_empty() {
                    jobs.push((d, rect));
                    proof {
                        assert(jobs_view(jobs@) =~= jobs_view(prev).push((d as int, rect@)));
                    }
                }
                proof {
                    assert(jobs_view(jobs@) =~= jobs_view(before) + screen_jobs(pending@, sv.take(d + 1)));
                }
                d = d + 1;
            }
            proof {
                assert(sv.take(m as int) == sv);
            }
            i = i + 1;
        }
        proof {
            assert(rv.take(n as int) == rv);
        }
        self.redraws = Vec::new();
        proof {
            assert(self.redraws_view() =~= Seq::<RectView>::empty());
        }
        jobs
    }

    /// The parts of `total` on each screen, with the index of the screen,
    /// for the screens it reaches.
    pub fn sync_rects(&self, total: &Rect) -> (jobs: Vec<(usize, Rect)>)
        requires
            self.inv(),
            boxed(total@),
        ensures
            jobs_view(jobs@) == screen_jobs(total@, self.screens_view()),
    {
        let ghost sv = self.screens_view();
        let mut jobs: Vec<(usize, Rect)> = Vec::new();
        let m = self.screens.len();
        let mut d: usize = 0;
        proof {
            assert(jobs_view(jobs@) =~= screen_jobs(total@, sv.take(0)));
        }
        while d < m
            invariant
                m == self.screens@.len(),
                sv == self.screens_view(),
                self.inv(),
                d <= m,
                boxed(total@),
                jobs_view(jobs@) == screen_jobs(total@, sv.take(d as int)),
            decreases m - d,
        {
            let screen = self.screens[d];
            proof {
                assert(sv[d as int] == screen@);
                assert(screen_sane(screen@));
                assert(sv.take(d + 1).drop_last() == sv.take(d as int));
                assert(sv.take(d + 1).last() == screen@);
            }
            let rect = total.intersection(&screen);
            let ghost prev = jobs@;
            if !rect.is_empty() {
                jobs.push((d, rect));
                proof {
                    assert(jobs_view(jobs@) =~= jobs_view(prev).push((d as int, rect@)));
                }
            }
            proof {
                assert(jobs_view(jobs@) =~= screen_jobs(total@, sv.take(d + 1)));
            }
            d = d + 1;
        }
        proof {
            assert(sv.take(m as int) == sv);
        }
        jobs
    }
}

/// Screen indices and rectangles by their views.
pub open spec fn jobs_view(jobs: Seq<(usize, Rect)>) -> Seq<(int, RectView)> {
    Seq::new(jobs.len(), |i: int| (jobs[i].0 as int, jobs[i].1@))
}

/// An optional rectangle by its view.
pub open spec fn view_opt(r: Option<Rect>) -> Option<RectView> {
    match r {
        Some(t) => Some(t@),
        None => None,
    }
}

/// The total redraw area after taking in `rects`: the container of the
/// non-empty ones and of `total`.
pub open spec fn grow_total(total: Option<RectView>, rects: Seq<RectView>) -> Option<RectView>
    decreases rects.len(),
{
    if rects.len() == 0 {
        total
    } else {
        let t = grow_total(total, rects.drop_last());
        let r = rects.last();
        if r.is_empty() {
            t
        } else {
            match t {
                Some(tr) => Some(tr.container(r)),
                None => Some(r),
            }
        }
    }
}

/// The non-empty parts of `r` on each of `screens`, with the screen index.
pub open spec fn screen_jobs(r: RectView, screens: Seq<RectView>) -> Seq<(int, RectView)>
    decreases screens.len(),
{
    if screens.len() == 0 {
        Seq::empty()
    } else {
        let before = screen_jobs(r, screens.drop_last());
        let part = r.intersection(screens.last());
        if part.is_empty() {
            before
        } else {
            before.push(((screens.len() - 1) as int, part))
        }
    }
}

/// The redraw work for `rects`, in order.
pub open spec fn redraw_jobs(rects: Seq<RectView>, screens: Seq<RectView>) -> Seq<(int, RectView)>
    decreases rects.len(),
{
    if rects.len() == 0 {
        Seq::empty()
    } else {
        redraw_jobs(rects.drop_last(), screens) + screen_jobs(rects.last(), screens)
    }
}

/// The best screen among the first `n`: the first with the largest overlap
/// with `rect`, and that overlap (the first screen and 0 when none overlaps).
pub open spec fn best_from(screens: Seq<RectView>, rect: RectView, n: int) -> (RectView, int)
    decreases n,
{
    if n <= 0 {
        (screens[0], 0)
    } else {
        let (best, area) = best_from(screens, rect, n - 1);
        let a = screens[n - 1].intersection(rect).area();
        if a > area {
            (screens[n - 1], a)
        } else {
            (best, area)
        }
    }
}

pub open spec fn best_screen(screens: Seq<RectView>, rect: RectView) -> RectView {
    best_from(screens, rect, screens.len() as int).0
}

proof fn lemma_overlap_area(screen: RectView, rect: RectView)
    requires
        screen_sane(screen),
        rect.edges_fit(),
    ensures
        screen.edges_fit(),
        rect.edges_fit(),
        0 <= screen.intersection(rect).area() <= i32::MAX,
{
    let i = screen.intersection(rect);
    if screen.meets(rect) {
        crate::rect::lemma_intersection_inside_both(screen, rect);
        let (w, h) = (i.w, i.h);
        assert(0 <= w * h <= 0x8000 * 0x8000) by (nonlinear_arith)
            requires
                0 <= w <= 0x8000,
                0 <= h <= 0x8000,
        ;
    }
}

proof fn lemma_first_absorbing_at(redraws: Seq<RectView>, request: RectView, k: int)
    requires
        0 <= k <= redraws.len(),
        k < redraws.len() ==> absorbs(redraws[k], request),
        forall|j: int| 0 <= j < k ==> !absorbs(#[trigger] redraws[j], request),
    ensures
        first_absorbing(redraws, request) == k,
    decreases redraws.len(),
{
    if redraws.len() > 0 && k > 0 {
        assert(!absorbs(redraws[0], request));
        assert forall|j: int| 0 <= j < k - 1 implies !absorbs(#[trigger] redraws.drop_first()[j], request) by {
            assert(redraws.drop_first()[j] == redraws[j + 1]);
        }
        lemma_first_absorbing_at(redraws.drop_first(), request, k - 1);
    }
}

/// Whether the pending redraw `pending` absorbs `request`, with the area
/// arithmetic of the release build.
fn absorbs_exec(pending: &Rect, request: &Rect) -> (b: bool)
    requires
        boxed(pending@),
        boxed(request@),
    ensures
        b == absorbs(pending@, request@),
{
    proof {
        crate::rect::lemma_container_holds_both(pending@, request@);
    }
    let c = pending.container(request);
    let ca = c.width().wrapping_mul(c.height());
    let pa = pending.width().wrapping_mul(pending.height());
    let ra = request.width().wrapping_mul(request.height());
    let sum = pa.wrapping_add(ra);
    proof {
        lemma_wrapping_mul(c@.w, c@.h);
        lemma_wrapping_mul(pending@.w, pending@.h);
        lemma_wrapping_mul(request@.w, request@.h);
        lemma_wrapping_add(pa as int, ra as int);
    }
    ca <= sum
}

proof fn lemma_wrapping_mul(a: int, b: int)
    requires
        i32::MIN <= a <= i32::MAX,
        i32::MIN <= b <= i32::MAX,
    ensures
        vstd::wrapping::i32_specs::wrapping_mul(a as i32, b as i32) == wrap32(a * b),
{
    reveal(vstd::wrapping::i32_specs::wrapping_mul);
}

proof fn lemma_wrapping_add(a: int, b: int)
    requires
        i32::MIN <= a <= i32::MAX,
        i32::MIN <= b <= i32::MAX,
    ensures
        vstd::wrapping::i32_specs::wrapping_add(a as i32, b as i32) == wrap32(a + b),
{

}

/// The window area of a screen.
fn window_area(screen_rect: &Rect) -> (r: Rect)
    requires
        spec_window_area(screen_rect@).h >= 0,
    ensures
        r@ == spec_window_area(screen_rect@),
{
    let mut height = screen_rect.height();
    height -= 48 * ((height / 1600) + 1);
    Rect::new(screen_rect.left(), screen_rect.top(), screen_rect.width(), height)
}

} // verus!
