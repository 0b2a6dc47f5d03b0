use vstd::prelude::*;

verus! {

/// The mathematical content of a [`Rect`]: its top-left corner and its size.
pub struct RectView {
    pub x: int,
    pub y: int,
    pub w: int,
    pub h: int,
}

impl RectView {
    pub open spec fn left(self) -> int {
        self.x
    }

    pub open spec fn right(self) -> int {
        self.x + self.w
    }

    pub open spec fn top(self) -> int {
        self.y
    }

    pub open spec fn bottom(self) -> int {
        self.y + self.h
    }

    pub open spec fn area(self) -> int {
        self.w * self.h
    }

    /// A rectangle has a non-negative size.
    pub open spec fn wf(self) -> bool {
        self.w >= 0 && self.h >= 0
    }

    /// The right and bottom edges are representable as `i32`.
    pub open spec fn edges_fit(self) -> bool {
        self.right() <= i32::MAX && self.bottom() <= i32::MAX
    }

    /// The point lies on or inside the edges (the edges count as inside).
    pub open spec fn contains_point(self, px: int, py: int) -> bool {
        self.left() <= px && px <= self.right() && self.top() <= py && py <= self.bottom()
    }

    pub open spec fn is_empty(self) -> bool {
        self.w == 0 || self.h == 0
    }

    /// The two rectangles touch or overlap, so their intersection is not degenerate.
    pub open spec fn meets(self, other: RectView) -> bool {
        spec_max(self.left(), other.left()) <= spec_min(self.right(), other.right())
            && spec_max(self.top(), other.top()) <= spec_min(self.bottom(), other.bottom())
    }

    /// The rectangle that `Rect::intersection` computes.
    pub open spec fn intersection(self, other: RectView) -> RectView {
        if self.meets(other) {
            let l = spec_max(self.left(), other.left());
            let r = spec_min(self.right(), other.right());
            let t = spec_max(self.top(), other.top());
            let b = spec_min(self.bottom(), other.bottom());
            RectView { x: l, y: t, w: r - l, h: b - t }
        } else {
            RectView { x: 0, y: 0, w: 0, h: 0 }
        }
    }

    /// The smallest rectangle that holds both rectangles.
    pub open spec fn container(self, other: RectView) -> RectView {
        let l = spec_min(self.left(), other.left());
        let r = spec_max(self.right(), other.right());
        let t = spec_min(self.top(), other.top());
        let b = spec_max(self.bottom(), other.bottom());
        RectView { x: l, y: t, w: r - l, h: b - t }
    }

    /// `inner` lies inside `self`.
    pub open spec fn holds(self, inner: RectView) -> bool {
        self.left() <= inner.left() && inner.right() <= self.right() && self.top() <= inner.top()
            && inner.bottom() <= self.bottom()
    }

    pub open spec fn offset(self, dx: int, dy: int) -> RectView {
        RectView { x: self.x + dx, y: self.y + dy, w: self.w, h: self.h }
    }

    /// Every quantity that `Rect::container` computes with `other` fits in an `i32`.
    pub open spec fn container_fits(self, other: RectView) -> bool {
        &&& self.edges_fit()
        &&& other.edges_fit()
        &&& self.container(other).w <= i32::MAX
        &&& self.container(other).h <= i32::MAX
    }
}

pub open spec fn spec_min(a: int, b: int) -> int {
    if a <= b {
        a
    } else {
        b
    }
}

pub open spec fn spec_max(a: int, b: int) -> int {
    if a >= b {
        a
    } else {
        b
    }
}

/// An axis-aligned rectangle of pixels, with a non-negative width and height.
#[derive(Copy, Clone, Debug)]
pub struct Rect {
    x: i32,
    y: i32,
    w: i32,
    h: i32,
}

impl View for Rect {
    type V = RectView;

    closed spec fn view(&self) -> RectView {
        RectView { x: self.x as int, y: self.y as int, w: self.w as int, h: self.h as int }
    }
}

impl Rect {
    #[verifier::type_invariant]
    spec fn size_non_negative(self) -> bool {
        self.w >= 0 && self.h >= 0
    }

    pub fn new(x: i32, y: i32, w: i32, h: i32) -> (r: Rect)
        requires
            w >= 0,
            h >= 0,
        ensures
            r@ == (RectView { x: x as int, y: y as int, w: w as int, h: h as int }),
    {
        Rect { x, y, w, h }
    }

    pub fn area(&self) -> (a: i32)
        requires
            self@.area() <= i32::MAX,
        ensures
            a == self@.area(),
            a >= 0,
    {
        proof {
            use_type_invariant(self);
            let w = self.w as int;
            let h = self.h as int;
            assert(w * h >= 0) by (nonlinear_arith)
                requires
                    w >= 0,
                    h >= 0,
            ;
        }
        self.w * self.h
    }

    pub fn left(&self) -> (l: i32)
        ensures
            l == self@.left(),
    {
        self.x
    }

    pub fn right(&self) -> (r: i32)
        requires
            self@.right() <= i32::MAX,
        ensures
            r == self@.right(),
    {
        proof {
            use_type_invariant(self);
        }
        self.x + self.w
    }

    pub fn top(&self) -> (t: i32)
        ensures
            t == self@.top(),
    {
        self.y
    }

    pub fn bottom(&self) -> (b: i32)
        requires
            self@.bottom() <= i32::MAX,
        ensures
            b == self@.bottom(),
    {
        proof {
            use_type_invariant(self);
        }
        self.y + self.h
    }

    pub fn width(&self) -> (w: i32)
        ensures
            w == self@.w,
            w >= 0,
    {
        proof {
            use_type_invariant(self);
        }
        self.w
    }

    pub fn height(&self) -> (h: i32)
        ensures
            h == self@.h,
            h >= 0,
    {
        proof {
            use_type_invariant(self);
        }
        self.h
    }

    /// The smallest rectangle that holds both `self` and `other`.
    pub fn container(&self, other: &Rect) -> (c: Rect)
        requires
            self@.container_fits(other@),
        ensures
            c@ == self@.container(other@),
    {
        proof {
            use_type_invariant(self);
            use_type_invariant(other);
        }
        let sl = self.left();
        let ol = other.left();
        let left = if sl <= ol {
            sl
        } else {
            ol
        };
        let sr = self.right();
        let or = other.right();
        let right = if sr >= or {
            sr
        } else {
            or
        };
        let st = self.top();
        let ot = other.top();
        let top = if st <= ot {
            st
        } else {
            ot
        };
        let sb = self.bottom();
        let ob = other.bottom();
        let bottom = if sb >= ob {
            sb
        } else {
            ob
        };
        Rect::new(left, top, right - left, bottom - top)
    }

    /// Whether the point lies on or inside the edges of the rectangle.
    pub fn contains(&self, x: i32, y: i32) -> (b: bool)
        requires
            self@.edges_fit(),
        ensures
            b == self@.contains_point(x as int, y as int),
    {
        self.left() <= x && self.right() >= x && self.top() <= y && self.bottom() >= y
    }

    pub fn is_empty(&self) -> (b: bool)
        ensures
            b == self@.is_empty(),
    {
        self.w == 0 || self.h == 0
    }

    /// The overlap of the two rectangles; the zero rectangle at the origin
    /// when they neither touch nor overlap.
    pub fn intersection(&self, other: &Rect) -> (r: Rect)
        requires
            self@.edges_fit(),
            other@.edges_fit(),
        ensures
            r@ == self@.intersection(other@),
    {
        proof {
            use_type_invariant(self);
            use_type_invariant(other);
        }
        let sl = self.left();
        let ol = other.left();
        let left = if sl >= ol {
            sl
        } else {
            ol
        };
        let sr = self.right();
        let or = other.right();
        let right = if sr <= or {
            sr
        } else {
            or
        };
        let st = self.top();
        let ot = other.top();
        let top = if st >= ot {
            st
        } else {
            ot
        };
        let sb = self.bottom();
        let ob = other.bottom();
        let bottom = if sb <= ob {
            sb
        } else {
            ob
        };
        if right < left || bottom < top {
            return Rect::new(0, 0, 0, 0);
        }
        Rect::new(left, top, right - left, bottom - top)
    }

    /// The same rectangle moved by `(x, y)`.
    pub fn offset(&self, x: i32, y: i32) -> (r: Rect)
        requires
            i32::MIN <= self@.x + x <= i32::MAX,
            i32::MIN <= self@.y + y <= i32::MAX,
        ensures
            r@ == self@.offset(x as int, y as int),
    {
        proof {
            use_type_invariant(self);
        }
        Rect::new(self.x + x, self.y + y, self.w, self.h)
    }
}

impl Default for Rect {
    fn default() -> (r: Rect)
        ensures
            r@ == (RectView { x: 0, y: 0, w: 0, h: 0 }),
    {
        Rect::new(0, 0, 0, 0)
    }
}

/// Intersecting two rectangles does not depend on their order.
pub proof fn lemma_intersection_commutative(a: RectView, b: RectView)
    ensures
        a.intersection(b) == b.intersection(a),
{
}

/// When two rectangles touch or overlap, a point lies in their intersection
/// exactly when it lies in both of them.
pub proof fn lemma_intersection_contains_point(a: RectView, b: RectView, px: int, py: int)
    requires
        a.meets(b),
    ensures
        a.intersection(b).contains_point(px, py) <==> (a.contains_point(px, py)
            && b.contains_point(px, py)),
{
}

/// The intersection of two touching or overlapping rectangles is a rectangle
/// that lies inside both of them.
pub proof fn lemma_intersection_inside_both(a: RectView, b: RectView)
    requires
        a.wf(),
        b.wf(),
        a.meets(b),
    ensures
        a.intersection(b).wf(),
        a.holds(a.intersection(b)),
        b.holds(a.intersection(b)),
{
}

/// Rectangles that neither touch nor overlap intersect in the empty rectangle
/// at the origin.
pub proof fn lemma_intersection_apart(a: RectView, b: RectView)
    requires
        !a.meets(b),
    ensures
        a.intersection(b) == (RectView { x: 0, y: 0, w: 0, h: 0 }),
        a.intersection(b).is_empty(),
{
}

/// A rectangle intersected with itself is itself.
pub proof fn lemma_intersection_idempotent(a: RectView)
    requires
        a.wf(),
    ensures
        a.intersection(a) == a,
{
}

/// The container of two rectangles is a rectangle that holds both, and does
/// not depend on their order.
pub proof fn lemma_container_holds_both(a: RectView, b: RectView)
    requires
        a.wf(),
        b.wf(),
    ensures
        a.container(b).wf(),
        a.container(b).holds(a),
        a.container(b).holds(b),
        a.container(b) == b.container(a),
{
}

/// The container of two rectangles is the smallest rectangle that holds both.
pub proof fn lemma_container_smallest(a: RectView, b: RectView, c: RectView)
    requires
        c.holds(a),
        c.holds(b),
    ensures
        c.holds(a.container(b)),
{
}

/// Every point of either rectangle lies in their container.
pub proof fn lemma_container_contains_point(a: RectView, b: RectView, px: int, py: int)
    requires
        a.wf(),
        b.wf(),
        a.contains_point(px, py) || b.contains_point(px, py),
    ensures
        a.container(b).contains_point(px, py),
{
}

/// Moving a rectangle by `(dx, dy)` and back gives the same rectangle, and
/// moving keeps its size and area.
pub proof fn lemma_offset_undo(a: RectView, dx: int, dy: int)
    ensures
        a.offset(dx, dy).offset(-dx, -dy) == a,
        a.offset(dx, dy).w == a.w,
        a.offset(dx, dy).h == a.h,
        a.offset(dx, dy).area() == a.area(),
{
}

/// A rectangle is empty exactly when its area is zero.
pub proof fn lemma_empty_iff_zero_area(a: RectView)
    requires
        a.wf(),
    ensures
        a.is_empty() <==> a.area() == 0,
{
    let w = a.w;
    let h = a.h;
    assert((w == 0 || h == 0) <==> w * h == 0) by (nonlinear_arith)
        requires
            w >= 0,
            h >= 0,
    ;
}

/// The area of a container is at least the area of each rectangle it holds.
pub proof fn lemma_holds_area(outer: RectView, inner: RectView)
    requires
        inner.wf(),
        outer.holds(inner),
    ensures
        inner.area() <= outer.area(),
{
    let (ow, oh, iw, ih) = (outer.w, outer.h, inner.w, inner.h);
    assert(iw * ih <= ow * oh) by (nonlinear_arith)
        requires
            0 <= iw <= ow,
            0 <= ih <= oh,
    ;
}

} // verus!
