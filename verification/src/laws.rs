//! Properties of the server that span its operations: what a window keeps
//! through an event, what closing and opening windows do to the set of
//! windows, how tiling is undone, and what the keyboard shows.
use crate::event::{bit, spec_decode, ButtonEvent, Event, InputEvent, KeyEvent, MouseEvent, MouseRelativeEvent};
use crate::event::{EVENT_BUTTON, EVENT_KEY, EVENT_MOUSE, EVENT_MOUSE_RELATIVE, K_SUPER};
use crate::event::{K_ALT, K_ALT_GR, K_CTRL, K_LEFT_SHIFT, K_RIGHT_SHIFT};
use crate::rect::spec_min;
use crate::scheme::{move_event, clipboard_read_len, focused, front_to_back, hover_walk, resize_event, spec_close, spec_drag};
use crate::scheme::{spec_focus, spec_forget_window, spec_key_event, spec_mouse_event, spec_popup};
use crate::scheme::{spec_push_event, spec_set_flag, spec_tile_window, spec_update_window, spec_window_new, tiled};
use crate::scheme::{modifier_after, ALT_ANY_MODIFIER, ALT_GR_MODIFIER, ALT_MODIFIER, CONTROL_MODIFIER};
use crate::scheme::{SHIFT_ANY_MODIFIER, SHIFT_LEFT_MODIFIER, SHIFT_RIGHT_MODIFIER, SUPER_MODIFIER};
use crate::scheme::{volume_after, window_new_end, window_new_join, window_new_start};
use crate::scheme::{scheme_wf, spec_rezbuffer, Popup, SchemeView, TilePosition, Volume};
use crate::window::{accumulates, flag_set, queue_event, replaces, WindowView};
use crate::window::{ORBITAL_FLAG_MAXIMIZED};
use crate::window_order::{lemma_remove_window, spec_add_window, without, WindowZOrder};
use crate::compositor::{best_screen, spec_window_area};
use crate::event::{EVENT_QUIT, EVENT_TEXT_INPUT};
use crate::scheme::{auto_place, collides, press_title, spec_forward_key, tile_target, DragMode};
use vstd::prelude::*;

verus! {

/// Two states hold the same windows, in the same focus order and layers.
pub open spec fn same_windows(a: SchemeView, b: SchemeView) -> bool {
    &&& a.windows.dom() == b.windows.dom()
    &&& a.focus == b.focus
    &&& forall|k: usize| #![trigger b.windows[k]] a.windows.contains_key(k) ==> b.windows[k].zorder == a.windows[k].zorder
}

proof fn lemma_push_keeps(s: SchemeView, id: usize, e: Event)
    ensures
        same_windows(s, spec_push_event(s, id, e)),
{
    assert(spec_push_event(s, id, e).windows.dom() =~= s.windows.dom());
}

proof fn lemma_update_keeps(s: SchemeView, id: usize, w: WindowView)
    requires
        s.windows.contains_key(id),
        w.zorder == s.windows[id].zorder,
    ensures
        same_windows(s, spec_update_window(s, id, w)),
        spec_update_window(s, id, w).windows.contains_key(id),
{
    assert(spec_update_window(s, id, w).windows.dom() =~= s.windows.dom());
}

proof fn lemma_focus_keeps(s: SchemeView, id: usize, f: bool)
    ensures
        same_windows(s, spec_focus(s, id, f)),
{
    assert(spec_focus(s, id, f).windows.dom() =~= s.windows.dom());
}

proof fn lemma_hover_walk_keeps(s: SchemeView, ids: Seq<usize>, x: int, y: int)
    ensures
        same_windows(s, hover_walk(s, ids, x, y).2),
    decreases ids.len(),
{
    assert forall|t: SchemeView, i: usize, e: Event| same_windows(t, #[trigger] spec_push_event(t, i, e)) by {
        lemma_push_keeps(t, i, e);
    }
    if ids.len() > 0 {
        lemma_hover_walk_keeps(s, ids.drop_first(), x, y);
    }
}

#[verifier::rlimit(50)]
#[verifier::spinoff_prover]
proof fn lemma_drag_keeps(s: SchemeView, x: i32, y: i32)
    ensures
        same_windows(s, spec_drag(s, x, y).1),
{
    assert forall|t: SchemeView, i: usize, w: WindowView| t.windows.contains_key(i) && w.zorder
        == t.windows[i].zorder implies same_windows(t, #[trigger] spec_update_window(t, i, w))
        && spec_update_window(t, i, w).windows.contains_key(i) by {
        lemma_update_keeps(t, i, w);
    }
}

/// A move of the pointer keeps the windows and their focus order: it may
/// move, resize or tell them things, but adds or takes away none.
pub proof fn lemma_mouse_event_keeps(s: SchemeView, x: i32, y: i32)
    ensures
        same_windows(s, spec_mouse_event(s, x, y)),
{
    reveal(spec_mouse_event);
    assert forall|t: SchemeView, i: usize, e: Event| same_windows(t, #[trigger] spec_push_event(t, i, e)) by {
        lemma_push_keeps(t, i, e);
    }
    lemma_drag_keeps(s, x, y);
    lemma_hover_walk_keeps(s, front_to_back(s), x as int, y as int);
}

/// Closing a window takes it out of the server: it leaves the map of windows
/// and the focus order, and every other window stays in both.
pub proof fn lemma_close_forgets(s: SchemeView, id: usize)
    ensures
        spec_close(s, id).windows.dom() == s.windows.dom().remove(id),
        !spec_close(s, id).focus.contains(id),
        forall|k: usize| k != id ==> (spec_close(s, id).focus.contains(k) <==> s.focus.contains(k)),
{
    reveal(spec_close);
    let s1 = match focused(s) {
        Some(f) => spec_focus(s, f, false),
        None => s,
    };
    if let Some(f) = focused(s) {
        lemma_focus_keeps(s, f, false);
    }
    let s3 = spec_forget_window(s1, id);
    assert(s3.windows.dom() =~= s.windows.dom().remove(id));
    let s4 = match focused(s3) {
        Some(f) => spec_focus(s3, f, true),
        None => s3,
    };
    if let Some(f) = focused(s3) {
        lemma_focus_keeps(s3, f, true);
    }
    lemma_mouse_event_keeps(s4, s4.cursor_x as i32, s4.cursor_y as i32);
    assert(s3.focus == without(s.focus, id));
    let other: usize = if id == 0 {
        1
    } else {
        0
    };
    lemma_remove_window(s.focus, id, other);
    assert forall|k: usize| k != id implies (spec_close(s, id).focus.contains(k) <==> s.focus.contains(
        k,
    )) by {
        lemma_remove_window(s.focus, id, k);
    }
}

/// A new window takes an id that no window has, and joins the map of windows
/// and the focus order; every window that was there stays. It comes to the
/// front of the focus order, so that it has the focus, unless it is a back
/// window, which joins at the end.
pub proof fn lemma_window_new_fresh(
    s: SchemeView,
    x: int,
    y: int,
    width: int,
    height: int,
    flags: Seq<char>,
    title: Seq<char>,
)
    requires
        scheme_wf(s),
    ensures
        ({
            let (id, s2) = spec_window_new(s, x, y, width, height, flags, title);
            &&& id == s.next_id
            &&& !s.windows.contains_key(id)
            &&& s2.windows.dom() == s.windows.dom().insert(id)
            &&& s2.focus.contains(id)
            &&& forall|k: usize| s.focus.contains(k) ==> s2.focus.contains(k)
            &&& s2.windows[id].zorder != WindowZOrder::Back ==> s2.focus[0] == id
            &&& s2.windows[id].zorder == WindowZOrder::Back ==> s2.focus.last() == id
        }),
{
    reveal(spec_window_new);
    let id = s.next_id as usize;
    let s2 = window_new_start(s);
    let s1 = SchemeView { next_id: s.next_id + 1, ..s };
    if let Some(f) = focused(s1) {
        lemma_focus_keeps(s1, f, false);
    }
    assert(same_windows(s, s2));
    let (w, h) = crate::scheme::new_window_size(s, width, height, flags);
    let w1 = crate::scheme::new_window_placed(s2, x, y, w, h, flags, title);
    let s3 = window_new_join(s2, id, w1, w, h);
    assert(s3.windows.dom() =~= s.windows.dom().insert(id));
    let f3 = s3.focus;
    assert(f3 == spec_add_window(s.focus, id, w1.zorder));
    if w1.zorder == WindowZOrder::Back {
        assert(f3[s.focus.len() as int] == id);
        assert forall|k: usize| s.focus.contains(k) implies f3.contains(k) by {
            let i = choose|i: int| 0 <= i < s.focus.len() && s.focus[i] == k;
            assert(f3[i] == k);
        }
    } else {
        assert(f3[0] == id);
        assert forall|k: usize| s.focus.contains(k) implies f3.contains(k) by {
            let i = choose|i: int| 0 <= i < s.focus.len() && s.focus[i] == k;
            assert(f3[i + 1] == k);
        }
    }
    let s5 = window_new_end(s3);
    if let Some(f) = focused(s3) {
        lemma_focus_keeps(s3, f, true);
    }
    lemma_mouse_event_keeps(s5, s5.cursor_x as i32, s5.cursor_y as i32);
}

/// Recomputing the drawing order a second time changes nothing: it depends
/// only on the focus order and the layers of the windows, which it keeps.
pub proof fn lemma_rezbuffer_idempotent(s: SchemeView)
    ensures
        spec_rezbuffer(spec_rezbuffer(s)) == spec_rezbuffer(s),
        spec_rezbuffer(s).focus == s.focus,
        spec_rezbuffer(s).windows == s.windows,
{
    assert(spec_rezbuffer(spec_rezbuffer(s)) == spec_rezbuffer(s));
}

/// Holding the super key shows the keyboard shortcuts; letting it go hides
/// every overlay.
pub proof fn lemma_super_key_shortcuts(s: SchemeView, character: char)
    ensures
        spec_popup(spec_key_event(s, KeyEvent { character, scancode: K_SUPER, pressed: true }).1)
            == Popup::Shortcuts,
        spec_popup(spec_key_event(s, KeyEvent { character, scancode: K_SUPER, pressed: false }).1)
            == Popup::Nothing,
{
}

/// Tiling a window that is not tiled and then tiling it again puts it back
/// where it was, untiled, tells it that it moved there, and then asks it to
/// take its old area's size again.
pub proof fn lemma_tile_twice_restores(screens: Seq<crate::rect::RectView>, w: WindowView, p1: TilePosition, p2: TilePosition)
    requires
        w.restore is None,
    ensures
        tiled(screens, tiled(screens, w, p1), p2).x == w.x,
        tiled(screens, tiled(screens, w, p1), p2).y == w.y,
        tiled(screens, tiled(screens, w, p1), p2).restore is None,
        tiled(screens, tiled(screens, w, p1), p2).events.last() == resize_event(w.rect().w, w.rect().h),
        ({
            let ev = tiled(screens, tiled(screens, w, p1), p2).events;
            ev.len() >= 2 && ev[ev.len() - 2] == move_event(w.x, w.y)
        }),
        !w.hidden ==> tiled(screens, tiled(screens, w, p1), p2).events.last() == resize_event(w.width, w.height),
{
}

/// Tiling a window of the server that is not tiled, and then tiling it
/// again at any position, puts it back where it was, untiled, and asks it to
/// take its old size again, after telling it that it moved back; the other
/// windows stay as they were. Tiling a
/// window that is not there changes nothing.
pub proof fn lemma_tile_window_twice(s: SchemeView, id: usize, p1: TilePosition, p2: TilePosition)
    ensures
        !s.windows.contains_key(id) ==> spec_tile_window(s, id, p1) == s,
        s.windows.contains_key(id) && s.windows[id].restore is None ==> ({
            let w = s.windows[id];
            let s2 = spec_tile_window(spec_tile_window(s, id, p1), id, p2);
            &&& s2.windows.dom() == s.windows.dom()
            &&& s2.windows[id].x == w.x
            &&& s2.windows[id].y == w.y
            &&& s2.windows[id].restore is None
            &&& s2.windows[id].events.last() == resize_event(w.rect().w, w.rect().h)
            &&& s2.windows[id].events.len() >= 2
            &&& s2.windows[id].events[s2.windows[id].events.len() - 2] == move_event(w.x, w.y)
            &&& !w.hidden ==> s2.windows[id].events.last() == resize_event(w.width, w.height)
            &&& forall|j: usize| j != id && s.windows.contains_key(j) ==> s2.windows[j] == s.windows[j]
        }),
{
    if s.windows.contains_key(id) && s.windows[id].restore is None {
        let w = s.windows[id];
        lemma_tile_twice_restores(s.screens, w, p1, p2);
        let s1 = spec_tile_window(s, id, p1);
        assert(s1.windows.contains_key(id) && s1.windows[id] == tiled(s.screens, w, p1));
        assert(s1.screens == s.screens);
        let s2 = spec_tile_window(s1, id, p2);
        assert(s2.windows == s.windows.insert(id, tiled(s.screens, tiled(s.screens, w, p1), p2)));
        assert(s2.windows.dom() =~= s.windows.dom());
    }
}

/// The modifier state after a key goes down or up: the "any shift" bit is set
/// exactly when a shift key is held, the "any alt" bit exactly when an alt key
/// is held; a modifier key's own bit follows the key, and the bits of the
/// other modifier keys keep their values.
pub proof fn lemma_modifier_bits(m: u8, scancode: u8, pressed: bool)
    ensures
        ({
            let m2 = modifier_after(m, scancode, pressed);
            &&& (m2 & SHIFT_ANY_MODIFIER != 0) == (m2 & SHIFT_LEFT_MODIFIER != 0 || m2 & SHIFT_RIGHT_MODIFIER != 0)
            &&& (m2 & ALT_ANY_MODIFIER != 0) == (m2 & ALT_MODIFIER != 0 || m2 & ALT_GR_MODIFIER != 0)
            &&& (m2 & SUPER_MODIFIER != 0) == if scancode == K_SUPER { pressed } else { m & SUPER_MODIFIER != 0 }
            &&& (m2 & SHIFT_LEFT_MODIFIER != 0) == if scancode == K_LEFT_SHIFT {
                pressed
            } else {
                m & SHIFT_LEFT_MODIFIER != 0
            }
            &&& (m2 & SHIFT_RIGHT_MODIFIER != 0) == if scancode == K_RIGHT_SHIFT {
                pressed
            } else {
                m & SHIFT_RIGHT_MODIFIER != 0
            }
            &&& (m2 & CONTROL_MODIFIER != 0) == if scancode == K_CTRL { pressed } else { m & CONTROL_MODIFIER != 0 }
            &&& (m2 & ALT_MODIFIER != 0) == if scancode == K_ALT { pressed } else { m & ALT_MODIFIER != 0 }
            &&& (m2 & ALT_GR_MODIFIER != 0) == if scancode == K_ALT_GR { pressed } else { m & ALT_GR_MODIFIER != 0 }
        }),
{
    let m2 = modifier_after(m, scancode, pressed);
    assert(
        (m2 & 0x04u8 != 0) == (m2 & 0x01u8 != 0 || m2 & 0x02u8 != 0)
        && (m2 & 0x40u8 != 0) == (m2 & 0x10u8 != 0 || m2 & 0x20u8 != 0)
        && (m2 & 0x80u8 != 0) == if scancode == 0x5Bu8 { pressed } else { m & 0x80u8 != 0 }
        && (m2 & 0x01u8 != 0) == if scancode == 0x2Au8 { pressed } else { m & 0x01u8 != 0 }
        && (m2 & 0x02u8 != 0) == if scancode == 0x36u8 { pressed } else { m & 0x02u8 != 0 }
        && (m2 & 0x08u8 != 0) == if scancode == 0x1Du8 { pressed } else { m & 0x08u8 != 0 }
        && (m2 & 0x10u8 != 0) == if scancode == 0x38u8 { pressed } else { m & 0x10u8 != 0 }
        && (m2 & 0x20u8 != 0) == if scancode == 0x64u8 { pressed } else { m & 0x20u8 != 0 }
    ) by (bit_vector)
        requires
            m2 == modifier_after(m, scancode, pressed),
    ;
}

/// Maximizing a window and then taking the maximized flag away puts it back
/// where it was, no longer maximized, and asks it to take its old size again.
pub proof fn lemma_unmaximize_restores(s: SchemeView, id: usize)
    requires
        s.windows.contains_key(id),
    ensures
        ({
            let s2 = spec_set_flag(spec_set_flag(s, id, ORBITAL_FLAG_MAXIMIZED, true), id, ORBITAL_FLAG_MAXIMIZED, false);
            &&& s2.windows.contains_key(id)
            &&& s2.windows[id].x == s.windows[id].x
            &&& s2.windows[id].y == s.windows[id].y
            &&& s2.windows[id].restore is None
            &&& s2.windows[id].events.last() == resize_event(s.windows[id].rect().w, s.windows[id].rect().h)
        }),
{
    let w = s.windows[id];
    let w0 = WindowView { restore: None, ..w };
    assert(w0.rect() == w.rect());
    lemma_tile_twice_restores(s.screens, w0, TilePosition::Maximized, TilePosition::Maximized);
}

/// Muting and unmuting gives the volume back: a toggle undoes a toggle.
pub proof fn lemma_volume_toggle_twice(value: int, toggle: int)
    ensures
        volume_after(
            Volume::Toggle,
            volume_after(Volume::Toggle, value, toggle).0,
            volume_after(Volume::Toggle, value, toggle).1,
        ).0 == value,
{
}

/// The volume stays between 0 and 100, and so does the level kept to go
/// back to after a mute.
pub proof fn lemma_volume_bounds(volume: Volume, value: int, toggle: int)
    requires
        0 <= value <= 100,
        0 <= toggle <= 100,
    ensures
        0 <= volume_after(volume, value, toggle).0 <= 100,
        0 <= volume_after(volume, value, toggle).1 <= 100,
{
}

/// What is written to the clipboard from its start is what a read from the
/// start gets back, as far as the read has room.
pub proof fn lemma_clipboard_round_trip(clipboard: Seq<u8>, data: Seq<u8>, buf: Seq<u8>)
    ensures
        ({
            let c = clipboard.take(spec_min(0, clipboard.len() as int)) + data;
            let n = clipboard_read_len(c, 0, buf.len() as int);
            &&& n == spec_min(buf.len() as int, data.len() as int)
            &&& (c.take(n) + buf.skip(n)).take(n) == data.take(n)
        }),
{
    let c = clipboard.take(spec_min(0, clipboard.len() as int)) + data;
    assert(c =~= data);
    let n = clipboard_read_len(c, 0, buf.len() as int);
    assert((c.take(n) + buf.skip(n)).take(n) =~= data.take(n));
}

/// An event that arrives is queued last. The events before it stay as they
/// were, except that a newer pointer position, move, size or screen replaces
/// the last queued one of its kind, and relative motion or scrolling is added
/// into it.
pub proof fn lemma_event_queued(q: Seq<Event>, e: Event)
    ensures
        queue_event(q, e).last().code == e.code,
        queue_event(q, e) == q.push(e) || (q.len() > 0 && queue_event(q, e).len() == q.len()
            && queue_event(q, e).drop_last() == q.drop_last()),
        !replaces(e.code) && !accumulates(e.code) ==> queue_event(q, e) == q.push(e),
        replaces(e.code) ==> queue_event(q, e).last() == e,
{
    if q.len() > 0 {
        assert(q.drop_last().push(e).drop_last() =~= q.drop_last());
        assert(q.drop_last().push(queue_event(q, e).last()).drop_last() =~= q.drop_last());
    }
}

proof fn lemma_concat_contains(a: Seq<char>, b: Seq<char>, c: char)
    ensures
        (a + b).contains(c) <==> a.contains(c) || b.contains(c),
{
    if (a + b).contains(c) {
        let i = choose|i: int| 0 <= i < (a + b).len() && (a + b)[i] == c;
        if i < a.len() {
            assert(a[i] == c);
        } else {
            assert(b[i - a.len()] == c);
        }
    }
    if a.contains(c) {
        let i = choose|i: int| 0 <= i < a.len() && a[i] == c;
        assert((a + b)[i] == c);
    }
    if b.contains(c) {
        let i = choose|i: int| 0 <= i < b.len() && b[i] == c;
        assert((a + b)[i + a.len()] == c);
    }
}

proof fn lemma_flag_if_contains(b: bool, c: char, f: char)
    ensures
        crate::window::flag_if(b, c).contains(f) <==> (b && c == f),
{
    if b {
        assert(crate::window::flag_if(b, c)[0] == c);
    }
}

/// The letters a window reports for its flags, by the one-letter flags it
/// can have set.
#[verifier::rlimit(80)]
#[verifier::spinoff_prover]
proof fn lemma_flags_contain(v: WindowView, flag: char)
    requires
        flag == 'a' || flag == 'l' || flag == 'h' || flag == 'r' || flag == 't' || flag == 'u' || flag
            == 'b' || flag == 'f',
    ensures
        v.flags().contains(flag) <==> {
            ||| flag == 'a' && v.asynchronous
            ||| flag == 'l' && v.borderless
            ||| flag == 'h' && v.hidden
            ||| flag == 'r' && v.resizable
            ||| flag == 't' && v.transparent
            ||| flag == 'u' && v.unclosable
            ||| flag == 'b' && v.zorder == WindowZOrder::Back
            ||| flag == 'f' && v.zorder == WindowZOrder::Front
        },
{
    let pa = crate::window::flag_if(v.asynchronous, 'a');
    let pl = crate::window::flag_if(v.borderless, 'l');
    let ph = crate::window::flag_if(v.hidden, 'h');
    let pm = match v.restore {
        Some((_, p)) => if p == TilePosition::FullScreen {
            seq!['m', 'M']
        } else {
            seq!['m']
        },
        None => seq![],
    };
    let pr = crate::window::flag_if(v.resizable, 'r');
    let pt = crate::window::flag_if(v.transparent, 't');
    let pu = crate::window::flag_if(v.unclosable, 'u');
    let pz = crate::window::zorder_flags(v.zorder);
    assert(v.flags() =~= pa + pl + ph + pm + pr + pt + pu + pz);
    lemma_concat_contains(pa, pl, flag);
    lemma_concat_contains(pa + pl, ph, flag);
    lemma_concat_contains(pa + pl + ph, pm, flag);
    lemma_concat_contains(pa + pl + ph + pm, pr, flag);
    lemma_concat_contains(pa + pl + ph + pm + pr, pt, flag);
    lemma_concat_contains(pa + pl + ph + pm + pr + pt, pu, flag);
    lemma_concat_contains(pa + pl + ph + pm + pr + pt + pu, pz, flag);
    lemma_flag_if_contains(v.asynchronous, 'a', flag);
    lemma_flag_if_contains(v.borderless, 'l', flag);
    lemma_flag_if_contains(v.hidden, 'h', flag);
    lemma_flag_if_contains(v.resizable, 'r', flag);
    lemma_flag_if_contains(v.transparent, 't', flag);
    lemma_flag_if_contains(v.unclosable, 'u', flag);
    lemma_restore_part(pm, flag);
    lemma_zorder_part(v.zorder, flag);
}

proof fn lemma_restore_part(pm: Seq<char>, flag: char)
    requires
        pm == seq!['m', 'M'] || pm == seq!['m'] || pm == Seq::<char>::empty(),
        flag != 'm' && flag != 'M',
    ensures
        !pm.contains(flag),
{
    if pm.contains(flag) {
        let i = choose|i: int| 0 <= i < pm.len() && pm[i] == flag;
    }
}

proof fn lemma_zorder_part(z: crate::window_order::WindowZOrder, flag: char)
    ensures
        crate::window::zorder_flags(z).contains(flag) <==> ((flag == 'b' && z
            == WindowZOrder::Back) || (flag == 'f' && z
            == WindowZOrder::Front)),
{
    let pz = crate::window::zorder_flags(z);
    if pz.len() > 0 {
        assert(pz[0] == 'b' || pz[0] == 'f');
    }
}

/// A flag that is set shows in the flags the window reports, and one that is
/// cleared does not.
pub proof fn lemma_flag_reported(w: WindowView, flag: char, value: bool)
    requires
        flag == 'a' || flag == 'l' || flag == 'h' || flag == 'r' || flag == 't' || flag == 'u' || flag
            == 'b' || flag == 'f',
    ensures
        flag_set(w, flag, value).flags().contains(flag) == value,
{
    lemma_flags_contain(flag_set(w, flag, value), flag);
}

/// A key event written in the wire format reads back as the same key.
pub proof fn lemma_key_round_trip(k: KeyEvent)
    ensures
        spec_decode(
            Event { code: EVENT_KEY, a: k.character as i64, b: (k.scancode + 256 * bit(k.pressed)) as i64 },
        ) == InputEvent::Key(k),
{
    let sc = k.scancode;
    assert((((sc as i64 + 256) as i64) as u8) == sc && ((sc as i64 + 256) as i64) & 256 == 256) by (bit_vector);
    assert(((sc as i64) as u8) == sc && (sc as i64) & 256 == 0) by (bit_vector);
}

/// A pointer position written in the wire format reads back as the same
/// position.
pub proof fn lemma_mouse_round_trip(m: MouseEvent)
    ensures
        spec_decode(Event { code: EVENT_MOUSE, a: m.x as i64, b: m.y as i64 }) == InputEvent::Mouse(m),
{
}

/// A relative pointer move written in the wire format reads back as the same
/// move.
pub proof fn lemma_mouse_relative_round_trip(r: MouseRelativeEvent)
    ensures
        spec_decode(Event { code: EVENT_MOUSE_RELATIVE, a: r.dx as i64, b: r.dy as i64 })
            == InputEvent::MouseRelative(r),
{
}

/// The state of the buttons written in the wire format reads back as the
/// same state.
pub proof fn lemma_button_round_trip(b: ButtonEvent)
    ensures
        spec_decode(
            Event {
                code: EVENT_BUTTON,
                a: (bit(b.left) + 2 * bit(b.middle) + 4 * bit(b.right)) as i64,
                b: 0,
            },
        ) == InputEvent::Button(b),
{
    let a = (bit(b.left) + 2 * bit(b.middle) + 4 * bit(b.right)) as i64;
    assert(0 <= a < 8);
    assert(forall|v: i64|
        0 <= v < 8 ==> ((v & 1 == 1) <==> v % 2 == 1) && ((v & 2 == 2) <==> (v / 2) % 2 == 1) && ((v
            & 4 == 4) <==> v / 4 == 1)) by (bit_vector);
}


/// While a window is dragged by its title bar, a pointer move to `(x, y)`
/// moves the window by exactly as much as the pointer moved since the drag
/// last followed it, in both directions: the window's place minus the
/// pointer's stays the same. The drag then goes on from `(x, y)`, and a
/// window that moved is told its new place.
pub proof fn lemma_title_drag_follows_pointer(s: SchemeView, id: usize, dx: i32, dy: i32, x: i32, y: i32)
    requires
        s.dragging == DragMode::Title(id, dx, dy),
        s.windows.contains_key(id),
    ensures
        ({
            let s2 = spec_mouse_event(s, x, y);
            let w = s.windows[id];
            &&& s2.windows.contains_key(id)
            &&& s2.windows[id].x == w.x + (x - dx)
            &&& s2.windows[id].y == w.y + (y - dy)
            &&& s2.windows[id].x - x == w.x - dx
            &&& s2.windows[id].y - y == w.y - dy
            &&& s2.dragging == DragMode::Title(id, x, y)
            &&& (x != dx || y != dy) ==> s2.windows[id].events.contains(
                Event { code: crate::event::EVENT_MOVE, a: (w.x + x - dx) as i64, b: (w.y + y - dy) as i64 },
            )
        }),
{
    reveal(spec_mouse_event);
    let w = s.windows[id];
    if x != dx || y != dy {
        let mv = Event { code: crate::event::EVENT_MOVE, a: (w.x + x - dx) as i64, b: (w.y + y - dy) as i64 };
        let q1 = queue_event(w.events, mv);
        assert(q1.last() == mv);
        assert(q1.contains(mv));
        let s2 = spec_mouse_event(s, x, y);
        let q2 = s2.windows[id].events;
        assert(q2 == q1 || q2 == queue_event(q1, crate::scheme::hover_event(false)));
        if q2 != q1 {
            assert(q2[q1.len() - 1] == mv);
        }
    }
}

/// Releasing the left button with the pointer on the close button of a
/// window that may be closed asks that window to quit: a quit event is added
/// at the end of its queue, and nothing else about it changes.
pub proof fn lemma_close_button_quits(s: SchemeView, id: usize, ev: ButtonEvent)
    requires
        s.windows.contains_key(id),
        !ev.left,
        s.cursor_left,
        !s.windows[id].unclosable,
        s.windows[id].close_contains(s.cursor_x, s.cursor_y),
    ensures
        ({
            let s2 = press_title(s, id, ev);
            &&& s2.windows.contains_key(id)
            &&& s2.windows[id].events == s.windows[id].events.push(Event { code: EVENT_QUIT, a: 0, b: 0 })
            &&& s2.windows[id] == (WindowView { events: s2.windows[id].events, ..s.windows[id] })
        }),
{
}

/// A key pressed with a character reaches the focused window as typed text
/// carrying that character, then as the key itself, when neither the super,
/// control nor alt key is held; with control or alt held, only the key
/// arrives.
pub proof fn lemma_typed_text(s: SchemeView, id: usize, ev: KeyEvent)
    requires
        focused(s) == Some(id),
        s.windows.contains_key(id),
        ev.pressed,
        ev.character != '\0',
        s.modifier_state & SUPER_MODIFIER == 0,
    ensures
        ({
            let q0 = s.windows[id].events;
            let q = spec_forward_key(s, ev).windows[id].events;
            &&& s.modifier_state & CONTROL_MODIFIER == 0 && s.modifier_state & ALT_MODIFIER == 0 ==> {
                &&& q.len() == q0.len() + 2
                &&& q.subrange(0, q0.len() as int) == q0
                &&& q[q0.len() as int] == Event { code: EVENT_TEXT_INPUT, a: ev.character as i64, b: 0 }
                &&& q[q0.len() as int + 1].code == EVENT_KEY
            }
            &&& (s.modifier_state & CONTROL_MODIFIER != 0 || s.modifier_state & ALT_MODIFIER != 0) ==> {
                &&& q.len() == q0.len() + 1
                &&& q.subrange(0, q0.len() as int) == q0
                &&& q[q0.len() as int].code == EVENT_KEY
            }
        }),
{
    let m = s.modifier_state;
    assert((m & 0x08u8 == 0 && m & 0x10u8 == 0) == (m & (0x08u8 | 0x10u8) == 0)) by (bit_vector);
    let q0 = s.windows[id].events;
    let q = spec_forward_key(s, ev).windows[id].events;
    if m & CONTROL_MODIFIER == 0 && m & ALT_MODIFIER == 0 {
        assert(q.subrange(0, q0.len() as int) =~= q0);
    } else {
        assert(q.subrange(0, q0.len() as int) =~= q0);
    }
}

/// A new window placed automatically whose centred place meets no other
/// window stays centred in the area left for windows on the first screen:
/// its left edge is half the room left over beside it (none when it is
/// wider than the area), and its top is half the room left over below it,
/// but never above its own title bar.
#[verifier::spinoff_prover]
pub proof fn lemma_auto_place_centres(s: SchemeView, w: WindowView)
    requires
        s.screens.len() > 0,
        1 <= w.scale,
        ({
            let area = spec_window_area(s.screens[0]);
            let cx = if area.w >= w.width { (area.w - w.width) / 2 } else { 0 };
            let room_y = if area.h >= w.height { (area.h - w.height) / 2 } else { 0 };
            let cy = if room_y >= w.title_rect().h { room_y } else { w.title_rect().h };
            !collides(s, WindowView { x: cx, y: cy, ..w })
        }),
    ensures
        ({
            let area = spec_window_area(s.screens[0]);
            let (x, y) = auto_place(s, w);
            &&& x == if area.w >= w.width { (area.w - w.width) / 2 } else { 0 }
            &&& area.h >= w.height && (area.h - w.height) / 2 >= w.title_rect().h ==> y == (area.h - w.height) / 2
            &&& (area.h < w.height || (area.h - w.height) / 2 < w.title_rect().h) ==> y == w.title_rect().h
            &&& x >= 0
            &&& y >= w.title_rect().h
        }),
{
    let area = spec_window_area(s.screens[0]);
    let th = w.title_rect().h;
    assert(th >= 0);
    let dw = area.w - w.width;
    let dh = area.h - w.height;
    let cx = if area.w >= w.width { (area.w - w.width) / 2 } else { 0 };
    let room_y = if area.h >= w.height { (area.h - w.height) / 2 } else { 0 };
    let cy = if room_y >= th { room_y } else { th };
    assert(crate::rect::spec_max(0, crate::scheme::div_trunc(dw, 2)) == cx) by {
        if dw < 0 {
            assert((-dw) / 2 >= 0);
        }
    }
    assert(crate::rect::spec_max(th, crate::scheme::div_trunc(dh, 2)) == cy) by {
        if dh < 0 {
            assert((-dh) / 2 >= 0);
        }
    }
    let wc = WindowView { x: cx, y: cy, ..w };
    lemma_cascade_free(s, wc, (cx, cy), s.screens[0]);
    assert(auto_place(s, w) == crate::scheme::cascade(s, wc, 0, (cx, cy), s.screens[0])) by {
        reveal(auto_place);
    }
}

/// A window whose place meets no other window stays where it is.
proof fn lemma_cascade_free(s: SchemeView, wc: WindowView, center: (int, int), screen: crate::rect::RectView)
    requires
        !collides(s, wc),
    ensures
        crate::scheme::cascade(s, wc, 0, center, screen) == (wc.x, wc.y),
{
}

/// Tiling to the left and right halves, or to the top and bottom halves, of
/// the area left for windows on the screen the window overlaps most gives
/// tiles of half that area each, side by side without overlap: the right
/// half starts where the left half ends, at the middle of the area, and the
/// bottom half where the top half ends. Maximizing covers the whole width.
pub proof fn lemma_halves_side_by_side(screens: Seq<crate::rect::RectView>, w: WindowView)
    ensures
        ({
            let area = spec_window_area(best_screen(screens, w.rect()));
            let l = tile_target(screens, w, TilePosition::LeftHalf);
            let r = tile_target(screens, w, TilePosition::RightHalf);
            let t = tile_target(screens, w, TilePosition::TopHalf);
            let b = tile_target(screens, w, TilePosition::BottomHalf);
            let m = tile_target(screens, w, TilePosition::Maximized);
            &&& l.0 == area.x
            &&& l.2 == area.w / 2
            &&& r.0 == area.x + area.w / 2
            &&& r.2 == area.w / 2
            &&& r.0 == l.0 + l.2
            &&& r.1 == l.1
            &&& r.3 == l.3
            &&& t.2 == area.w
            &&& b.1 == t.1 + t.3
            &&& b.3 == t.3
            &&& m.0 == area.x
            &&& m.2 == area.w
        }),
{
}

/// A window that is not tiled and is tiled to the right half of its area
/// moves to the middle of that area, below its title bar, and is asked to
/// take half the area's width.
pub proof fn lemma_right_half_tile(screens: Seq<crate::rect::RectView>, w: WindowView)
    requires
        w.restore is None,
    ensures
        ({
            let area = spec_window_area(best_screen(screens, w.rect()));
            let t = tiled(screens, w, TilePosition::RightHalf);
            &&& t.x == area.x + area.w / 2
            &&& t.y == area.y + w.title_rect().h
            &&& t.events.last() == resize_event(area.w / 2, area.h - w.title_rect().h)
        }),
{
}

} // verus!
