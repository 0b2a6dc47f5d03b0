use std::collections::VecDeque;
use vstd::multiset::Multiset;
use vstd::prelude::*;

verus! {

/// The layer a window is drawn in: back windows below normal ones, front
/// windows above them.
#[derive(Copy, Clone, Debug, PartialEq, Eq, Structural, PartialOrd, Ord)]
pub enum WindowZOrder {
    Back,
    Normal,
    Front,
}

/// One entry of the drawing order: the window, its layer, and whether it is
/// the focused window.
pub type ZEntry = (usize, WindowZOrder, bool);

/// Entries whose layer is `z`.
pub open spec fn in_layer(z: WindowZOrder) -> spec_fn(ZEntry) -> bool {
    |e: ZEntry| e.1 == z
}

/// The drawing order of `entries`, front to back: the entries sorted by layer,
/// front layer first, keeping the given order inside a layer (a stable sort).
pub open spec fn layered(entries: Seq<ZEntry>) -> Seq<ZEntry> {
    entries.filter(in_layer(WindowZOrder::Front)) + entries.filter(in_layer(WindowZOrder::Normal))
        + entries.filter(in_layer(WindowZOrder::Back))
}

/// The windows of `focus` tagged with their layers `zs`; the first one is
/// marked as focused.
pub open spec fn tagged(focus: Seq<usize>, zs: Seq<WindowZOrder>) -> Seq<ZEntry> {
    Seq::new(focus.len(), |i: int| (focus[i], zs[i], i == 0))
}

/// The window order after `add_window(id, zorder)`: back windows join at
/// the end of the focus order, others at the front.
pub open spec fn spec_add_window(focus: Seq<usize>, id: usize, zorder: WindowZOrder) -> Seq<usize> {
    if zorder == WindowZOrder::Back {
        focus.push(id)
    } else {
        seq![id] + focus
    }
}

/// The focus order without any occurrence of `id`.
pub open spec fn without(focus: Seq<usize>, id: usize) -> Seq<usize> {
    focus.filter(other_than(id))
}

/// Windows other than `id`.
pub open spec fn other_than(id: usize) -> spec_fn(usize) -> bool {
    |e: usize| e != id
}

/// Index of the first occurrence of `id` in `focus` (which must hold it).
pub open spec fn first_index(focus: Seq<usize>, id: usize) -> int {
    focus.index_of_first(id)->Some_0
}

/// The focus order after `make_focused(id)`: `id` moves from its first place to the front.
pub open spec fn spec_make_focused(focus: Seq<usize>, id: usize) -> Seq<usize> {
    seq![id] + focus.remove(first_index(focus, id))
}

/// The focus order after `move_focused_after(id)`: the front window is taken
/// out and put back at the index where `id` was first found.
pub open spec fn spec_move_focused_after(focus: Seq<usize>, id: usize) -> Seq<usize> {
    focus.drop_first().insert(first_index(focus, id), focus[0])
}

/// The focus order of the windows, and the drawing order computed from it.
pub struct WindowOrder {
    focus_order: VecDeque<usize>,
    zbuffer: Vec<ZEntry>,
}

impl WindowOrder {
    /// The windows, most recently focused first.
    pub closed spec fn focus(&self) -> Seq<usize> {
        self.focus_order@
    }

    /// The drawing order as last computed by `rezbuffer`, front to back.
    pub closed spec fn zbuffer(&self) -> Seq<ZEntry> {
        self.zbuffer@
    }

    pub fn new() -> (r: WindowOrder)
        ensures
            r.focus() == Seq::<usize>::empty(),
            r.zbuffer() == Seq::<ZEntry>::empty(),
    {
        WindowOrder { focus_order: VecDeque::new(), zbuffer: Vec::new() }
    }

    /// Adds a window: a back window at the end of the focus order, any other
    /// window at the front, where it is focused.
    pub fn add_window(&mut self, id: usize, zorder: WindowZOrder)
        ensures
            final(self).focus() == spec_add_window(old(self).focus(), id, zorder),
            final(self).zbuffer() == old(self).zbuffer(),
    {
        match zorder {
            WindowZOrder::Front | WindowZOrder::Normal => {
                self.focus_order.push_front(id);
            },
            WindowZOrder::Back => {
                self.focus_order.push_back(id);
            },
        }
    }

    /// Removes every occurrence of the window from the focus order.
    pub fn remove_window(&mut self, id: usize)
        ensures
            final(self).focus() == without(old(self).focus(), id),
            final(self).zbuffer() == old(self).zbuffer(),
    {
        let mut kept: VecDeque<usize> = VecDeque::new();
        let n = self.focus_order.len();
        let mut i: usize = 0;
        while i < n
            invariant
                n == self.focus_order@.len(),
                i <= n,
                kept@ == self.focus_order@.take(i as int).filter(other_than(id)),
            decreases n - i,
        {
            let e = self.focus_order[i];
            proof {
                assert(self.focus_order@.take(i + 1) == self.focus_order@.take(i as int).push(e));
                self.focus_order@.take(i as int).lemma_filter_push(e, other_than(id));
            }
            if e != id {
                kept.push_back(e);
            }

            i = i + 1;
        }
        proof {
            assert(self.focus_order@.take(n as int) == self.focus_order@);
        }
        self.focus_order = kept;
    }

    /// Finds the first index of `id`.
    fn position(&self, id: usize) -> (p: usize)
        requires
            self.focus().contains(id),
        ensures
            p == first_index(self.focus(), id),
            p < self.focus().len(),
            self.focus()[p as int] == id,
    {
        let n = self.focus_order.len();
        let mut i: usize = 0;
        while i < n
            invariant
                n == self.focus_order@.len(),
                i <= n,
                forall|j: int| 0 <= j < i ==> self.focus_order@[j] != id,
                self.focus_order@.contains(id),
            decreases n - i,
        {
            if self.focus_order[i] == id {
                proof {
                    self.focus_order@.index_of_first_ensures(id);
                    let k = first_index(self.focus_order@, id);
                    if k < i {
                        assert(self.focus_order@[k] != id);
                    }
                    if k > i {
                        assert(self.focus_order@[i as int] == id);
                    }
                }
                return i;
            }
            i = i + 1;
        }
        proof {
            let k = choose|k: int| 0 <= k < self.focus_order@.len() && self.focus_order@[k] == id;
            assert(self.focus_order@[k] != id);
        }
        0
    }

    /// Moves the window to the front of the focus order.
    pub fn make_focused(&mut self, id: usize)
        requires
            old(self).focus().contains(id),
        ensures
            final(self).focus() == spec_make_focused(old(self).focus(), id),
            final(self).zbuffer() == old(self).zbuffer(),
    {
        let index = self.position(id);
        let removed = self.focus_order.remove(index);
        self.focus_order.push_front(id);
    }

    /// Takes the focused window out of the front of the focus order and puts
    /// it back at the index where `id` was found, so that it follows `id`.
    pub fn move_focused_after(&mut self, id: usize)
        requires
            old(self).focus().contains(id),
        ensures
            final(self).focus() == spec_move_focused_after(old(self).focus(), id),
            final(self).zbuffer() == old(self).zbuffer(),
    {
        let after_index = self.position(id);
        let front = self.focus_order.pop_front();
        match front {
            Some(front_id) => {
                self.focus_order.insert(after_index, front_id);
            },
            None => {},
        }
    }

    /// Appends to `dst` the entries of `src` whose layer is `z`, in order.
    fn append_layer(dst: &mut Vec<ZEntry>, src: &Vec<ZEntry>, z: WindowZOrder)
        ensures
            final(dst)@ == old(dst)@ + src@.filter(in_layer(z)),
    {
        let ghost start = dst@;
        let n = src.len();
        let mut i: usize = 0;
        while i < n
            invariant
                n == src@.len(),
                i <= n,
                dst@ == start + src@.take(i as int).filter(in_layer(z)),
            decreases n - i,
        {
            let e = src[i];
            proof {
                assert(src@.take(i + 1) == src@.take(i as int).push(e));
                src@.take(i as int).lemma_filter_push(e, in_layer(z));
            }
            if e.1 == z {
                dst.push(e);
            }
            i = i + 1;
        }
        proof {
            assert(src@.take(n as int) == src@);
        }
    }

    /// Recomputes the drawing order: every window of the focus order with the
    /// layer that `get_zorder` gives it, front layer first, keeping the focus
    /// order inside a layer; only the first window of the focus order is
    /// marked as focused.
    pub fn rezbuffer<F: Fn(usize) -> WindowZOrder>(&mut self, get_zorder: F)
        requires
            forall|i: int|
                0 <= i < old(self).focus().len() ==> get_zorder.requires(
                    (#[trigger] old(self).focus()[i],),
                ),
        ensures
            final(self).focus() == old(self).focus(),
            exists|zs: Seq<WindowZOrder>|
                {
                    &&& zs.len() == old(self).focus().len()
                    &&& forall|i: int|
                        0 <= i < zs.len() ==> get_zorder.ensures(
                            (old(self).focus()[i],),
                            #[trigger] zs[i],
                        )
                    &&& final(self).zbuffer() == layered(tagged(old(self).focus(), zs))
                },
    {
        let n = self.focus_order.len();
        let mut entries: Vec<ZEntry> = Vec::new();
        let ghost mut zs: Seq<WindowZOrder> = Seq::empty();
        proof {
            assert forall|j: int| 0 <= j < n implies get_zorder.requires(
                (#[trigger] self.focus_order@[j],),
            ) by {
                assert(self.focus()[j] == self.focus_order@[j]);
            }
        }
        let mut i: usize = 0;
        while i < n
            invariant
                n == self.focus_order@.len(),
                i <= n,
                zs.len() == i,
                forall|j: int|
                    0 <= j < n ==> get_zorder.requires((#[trigger] self.focus_order@[j],)),
                forall|j: int|
                    0 <= j < i ==> get_zorder.ensures((self.focus_order@[j],), #[trigger] zs[j]),
                entries@ == tagged(self.focus_order@.take(i as int), zs),
            decreases n - i,
        {
            let id = self.focus_order[i];
            let z = get_zorder(id);
            entries.push((id, z, i == 0));
            proof {
                zs = zs.push(z);
                assert(entries@ =~= tagged(self.focus_order@.take(i + 1), zs));
            }
            i = i + 1;
        }
        proof {
            assert(self.focus_order@.take(n as int) == self.focus_order@);
        }
        let mut zbuffer: Vec<ZEntry> = Vec::new();
        Self::append_layer(&mut zbuffer, &entries, WindowZOrder::Front);
        Self::append_layer(&mut zbuffer, &entries, WindowZOrder::Normal);
        Self::append_layer(&mut zbuffer, &entries, WindowZOrder::Back);
        self.zbuffer = zbuffer;
        proof {
            assert(self.zbuffer@ == layered(tagged(self.focus_order@, zs)));
        }
    }

    /// The focused window: the first of the focus order.
    pub fn focused(&self) -> (r: Option<usize>)
        ensures
            r == (if self.focus().len() > 0 {
                Some(self.focus()[0])
            } else {
                None
            }),
    {
        if self.focus_order.len() > 0 {
            Some(self.focus_order[0])
        } else {
            None
        }
    }

    /// The windows in focus order, most recently focused first.
    pub fn focus_order(&self) -> (r: Vec<usize>)
        ensures
            r@ == self.focus(),
    {
        let n = self.focus_order.len();
        let mut r: Vec<usize> = Vec::new();
        let mut i: usize = 0;
        while i < n
            invariant
                n == self.focus_order@.len(),
                i <= n,
                r@ == self.focus_order@.take(i as int),
            decreases n - i,
        {
            r.push(self.focus_order[i]);
            proof {
                assert(r@ =~= self.focus_order@.take(i + 1));
            }
            i = i + 1;
        }
        proof {
            assert(self.focus_order@.take(n as int) == self.focus_order@);
        }
        r
    }

    /// The windows of the drawing order, front to back.
    pub fn iter_front_to_back(&self) -> (r: Vec<usize>)
        ensures
            r@ == self.zbuffer().map_values(|e: ZEntry| e.0),
    {
        let n = self.zbuffer.len();
        let mut r: Vec<usize> = Vec::new();
        let mut i: usize = 0;
        while i < n
            invariant
                n == self.zbuffer@.len(),
                i <= n,
                r@ == self.zbuffer@.take(i as int).map_values(|e: ZEntry| e.0),
            decreases n - i,
        {
            r.push(self.zbuffer[i].0);
            proof {
                assert(r@ =~= self.zbuffer@.take(i + 1).map_values(|e: ZEntry| e.0));
            }
            i = i + 1;
        }
        proof {
            assert(self.zbuffer@.take(n as int) == self.zbuffer@);
        }
        r
    }

    /// The windows of the drawing order back to front, each with whether it
    /// is the focused window.
    pub fn iter_back_to_front(&self) -> (r: Vec<(usize, bool)>)
        ensures
            r@ == self.zbuffer().map_values(|e: ZEntry| (e.0, e.2)).reverse(),
    {
        let n = self.zbuffer.len();
        let mut r: Vec<(usize, bool)> = Vec::new();
        let mut i: usize = n;
        while i > 0
            invariant
                n == self.zbuffer@.len(),
                i <= n,
                r@ == self.zbuffer@.skip(i as int).map_values(|e: ZEntry| (e.0, e.2)).reverse(),
            decreases i,
        {
            i = i - 1;
            let e = self.zbuffer[i];
            r.push((e.0, e.2));
            proof {
                assert(r@ =~= self.zbuffer@.skip(i as int).map_values(
                    |e: ZEntry| (e.0, e.2),
                ).reverse());
            }
        }
        proof {
            assert(self.zbuffer@.skip(0) == self.zbuffer@);
        }
        r
    }
}

/// A window added in the normal or front layer becomes the focused window; a
/// back window joins at the end. Either way the other windows keep their order.
pub proof fn lemma_add_window_focus(focus: Seq<usize>, id: usize, zorder: WindowZOrder)
    ensures
        zorder != WindowZOrder::Back ==> spec_add_window(focus, id, zorder)[0] == id,
        zorder != WindowZOrder::Back ==> spec_add_window(focus, id, zorder).drop_first() == focus,
        zorder == WindowZOrder::Back ==> spec_add_window(focus, id, zorder).drop_last() == focus,
        zorder == WindowZOrder::Back ==> spec_add_window(focus, id, zorder).last() == id,
        spec_add_window(focus, id, zorder).to_multiset() == focus.to_multiset().insert(id),
{
    broadcast use vstd::seq_lib::group_to_multiset_ensures;
    broadcast use vstd::seq_lib::lemma_multiset_commutative;
    broadcast use vstd::multiset::group_multiset_axioms;

    if zorder == WindowZOrder::Back {
        assert(focus.push(id).drop_last() =~= focus);
    } else {
        assert((seq![id] + focus).drop_first() =~= focus);
        assert(seq![id] == Seq::<usize>::empty().push(id));
        assert(seq![id].to_multiset() =~= Multiset::<usize>::empty().insert(id));
    }
}

/// Adding a window that is not in the focus order keeps every window in it
/// once.
pub proof fn lemma_add_window_fresh(focus: Seq<usize>, id: usize, zorder: WindowZOrder)
    requires
        focus.no_duplicates(),
        !focus.contains(id),
    ensures
        spec_add_window(focus, id, zorder).no_duplicates(),
{
    let r = spec_add_window(focus, id, zorder);
    if zorder == WindowZOrder::Back {
        assert forall|i: int, j: int| 0 <= i < r.len() && 0 <= j < r.len() && i != j implies r[i]
            != r[j] by {
            if i < focus.len() && j < focus.len() {
            } else if i < focus.len() {
                assert(focus[i] == r[i]);
            } else {
                assert(focus[j] == r[j]);
            }
        }
    } else {
        assert forall|i: int, j: int| 0 <= i < r.len() && 0 <= j < r.len() && i != j implies r[i]
            != r[j] by {
            if i > 0 && j > 0 {
                assert(r[i] == focus[i - 1] && r[j] == focus[j - 1]);
            } else if i > 0 {
                assert(r[i] == focus[i - 1]);
            } else {
                assert(r[j] == focus[j - 1]);
            }
        }
    }
}

/// After `remove_window(id)` the window is gone, every other window is still
/// there, and the remaining windows keep their order.
pub proof fn lemma_remove_window(focus: Seq<usize>, id: usize, other: usize)
    requires
        other != id,
    ensures
        !without(focus, id).contains(id),
        without(focus, id).contains(other) <==> focus.contains(other),
        without(focus, id).len() <= focus.len(),
        focus.no_duplicates() ==> without(focus, id).no_duplicates(),
        !focus.contains(id) ==> without(focus, id) == focus,
    decreases focus.len(),
{
    broadcast use vstd::seq_lib::group_filter_ensures;

    reveal(Seq::filter);
    if focus.len() > 0 {
        let init = focus.drop_last();
        let x = focus.last();
        lemma_remove_window(init, id, other);
        assert(init.push(x) =~= focus);
        init.lemma_filter_push(x, other_than(id));
        if focus.no_duplicates() {
            assert(init.no_duplicates());
            if x != id {
                assert(!init.contains(x)) by {
                    if init.contains(x) {
                        let k = choose|k: int| 0 <= k < init.len() && init[k] == x;
                        assert(focus[k] == focus[focus.len() - 1]);
                    }
                }
                lemma_remove_window(init, id, x);
                assert(!without(init, id).contains(x));
                let w = without(init, id);
                assert forall|i: int, j: int|
                    0 <= i < w.push(x).len() && 0 <= j < w.push(x).len() && i != j implies w.push(
                    x,
                )[i] != w.push(x)[j] by {
                    if i < w.len() && j < w.len() {
                    } else if i < w.len() {
                        assert(w.contains(w[i]));
                    } else {
                        assert(w.contains(w[j]));
                    }
                }
            }
        }
        if !focus.contains(id) {
            assert(!init.contains(id)) by {
                if init.contains(id) {
                    let k = choose|k: int| 0 <= k < init.len() && init[k] == id;
                    assert(focus[k] == id);
                }
            }
        }
        if focus.contains(other) && !init.contains(other) {
            assert(x == other) by {
                let k = choose|k: int| 0 <= k < focus.len() && focus[k] == other;
                if k < init.len() {
                    assert(init[k] == other);
                }
            }
            assert(without(focus, id).last() == other);
        }
        if without(focus, id).contains(other) && !without(init, id).contains(other) {
            let w = without(init, id);
            let k = choose|k: int| 0 <= k < w.push(x).len() && w.push(x)[k] == other;
            if k < w.len() {
                assert(w[k] == other);
            }
            assert(focus[focus.len() - 1] == other);
        }
    }
}

/// `make_focused(id)` puts the window in front and keeps the same windows:
/// the focus order is a permutation of the one before.
pub proof fn lemma_make_focused(focus: Seq<usize>, id: usize)
    requires
        focus.contains(id),
    ensures
        spec_make_focused(focus, id)[0] == id,
        spec_make_focused(focus, id).len() == focus.len(),
        spec_make_focused(focus, id).to_multiset() == focus.to_multiset(),
        focus.no_duplicates() ==> spec_make_focused(focus, id).no_duplicates(),
{
    broadcast use vstd::seq_lib::group_to_multiset_ensures;
    broadcast use vstd::seq_lib::lemma_multiset_commutative;
    broadcast use vstd::multiset::group_multiset_axioms;

    focus.index_of_first_ensures(id);
    let k = first_index(focus, id);
    let rest = focus.remove(k);
    focus.remove_ensures(k);
    assert(seq![id].to_multiset() =~= Multiset::<usize>::empty().insert(id)) by {
        assert(seq![id] == Seq::<usize>::empty().push(id));
    }
    assert(focus.to_multiset().remove(id).insert(id) =~= focus.to_multiset());
    if focus.no_duplicates() {
        let r = spec_make_focused(focus, id);
        assert forall|i: int, j: int| 0 <= i < r.len() && 0 <= j < r.len() && i != j implies r[i]
            != r[j] by {
            let fi = if i - 1 < k {
                i - 1
            } else {
                i
            };
            let fj = if j - 1 < k {
                j - 1
            } else {
                j
            };
            if i > 0 {
                assert(r[i] == focus[fi]);
            }
            if j > 0 {
                assert(r[j] == focus[fj]);
            }
        }
    }
}

/// `move_focused_after(id)` keeps the same windows: the focus order is a
/// permutation of the one before; when `id` is already in front nothing moves.
pub proof fn lemma_move_focused_after(focus: Seq<usize>, id: usize)
    requires
        focus.contains(id),
    ensures
        spec_move_focused_after(focus, id).len() == focus.len(),
        spec_move_focused_after(focus, id).to_multiset() == focus.to_multiset(),
        focus[0] == id ==> spec_move_focused_after(focus, id) == focus,
{
    broadcast use vstd::seq_lib::group_to_multiset_ensures;
    broadcast use vstd::multiset::group_multiset_axioms;

    focus.index_of_first_ensures(id);
    let k = first_index(focus, id);
    let rest = focus.drop_first();
    assert(rest == focus.remove(0));
    assert(0 <= k <= rest.len());
    assert(rest.insert(k, focus[0]).to_multiset() =~= rest.to_multiset().insert(focus[0]));
    assert(focus.to_multiset().remove(focus[0]).insert(focus[0]) =~= focus.to_multiset());
    if focus[0] == id {
        assert(k == 0);
        assert(rest.insert(0, focus[0]) =~= focus);
    }
}

/// The drawing order holds every tagged window exactly as often as the
/// focus order does: it is a permutation of it.
pub proof fn lemma_layered_permutation(entries: Seq<ZEntry>)
    ensures
        layered(entries).to_multiset() == entries.to_multiset(),
        layered(entries).len() == entries.len(),
    decreases entries.len(),
{
    broadcast use vstd::seq_lib::group_to_multiset_ensures;
    broadcast use vstd::seq_lib::lemma_multiset_commutative;
    broadcast use vstd::multiset::group_multiset_axioms;

    reveal(Seq::filter);
    if entries.len() == 0 {
        assert(layered(entries) =~= Seq::<ZEntry>::empty());
    } else {
        let init = entries.drop_last();
        let x = entries.last();
        lemma_layered_permutation(init);
        assert(init.push(x) =~= entries);
        let f = init.filter(in_layer(WindowZOrder::Front));
        let n = init.filter(in_layer(WindowZOrder::Normal));
        let b = init.filter(in_layer(WindowZOrder::Back));
        init.lemma_filter_push(x, in_layer(WindowZOrder::Front));
        init.lemma_filter_push(x, in_layer(WindowZOrder::Normal));
        init.lemma_filter_push(x, in_layer(WindowZOrder::Back));
        assert(layered(init).to_multiset() =~= f.to_multiset().add(n.to_multiset()).add(
            b.to_multiset(),
        ));
        assert(layered(entries).to_multiset() =~= layered(init).to_multiset().insert(x)) by {
            match x.1 {
                WindowZOrder::Front => {
                    assert(f.push(x).to_multiset() =~= f.to_multiset().insert(x));
                },
                WindowZOrder::Normal => {
                    assert(n.push(x).to_multiset() =~= n.to_multiset().insert(x));
                },
                WindowZOrder::Back => {
                    assert(b.push(x).to_multiset() =~= b.to_multiset().insert(x));
                },
            }
        }
    }
}

/// The rank of a layer: back windows lowest, front windows highest.
pub open spec fn rank(z: WindowZOrder) -> int {
    match z {
        WindowZOrder::Back => 0,
        WindowZOrder::Normal => 1,
        WindowZOrder::Front => 2,
    }
}

/// Front to back, the drawing order never goes up a layer.
pub proof fn lemma_layered_sorted(entries: Seq<ZEntry>, i: int, j: int)
    requires
        0 <= i <= j < layered(entries).len(),
    ensures
        rank(layered(entries)[i].1) >= rank(layered(entries)[j].1),
{
    broadcast use vstd::seq_lib::group_filter_ensures;

    let f = entries.filter(in_layer(WindowZOrder::Front));
    let n = entries.filter(in_layer(WindowZOrder::Normal));
    let b = entries.filter(in_layer(WindowZOrder::Back));
    let l = layered(entries);
    assert(l == f + n + b);
    assert forall|k: int| 0 <= k < l.len() implies (k < f.len() ==> l[k].1 == WindowZOrder::Front)
        && (f.len() <= k < f.len() + n.len() ==> l[k].1 == WindowZOrder::Normal) && (f.len()
        + n.len() <= k ==> l[k].1 == WindowZOrder::Back) by {
        if k < f.len() {
            assert(l[k] == f[k]);
            assert(in_layer(WindowZOrder::Front)(f[k]));
        } else if k < f.len() + n.len() {
            assert(l[k] == n[k - f.len()]);
            assert(in_layer(WindowZOrder::Normal)(n[k - f.len()]));
        } else {
            assert(l[k] == b[k - f.len() - n.len()]);
            assert(in_layer(WindowZOrder::Back)(b[k - f.len() - n.len()]));
        }
    }
}

} // verus!
