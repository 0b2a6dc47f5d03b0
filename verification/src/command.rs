//! The requests a client writes to its window, carried out on the server.
use crate::protocol::{CommandView, WindowCommand};
use crate::compositor::spec_schedule;
use crate::scheme::{in_win, resized, spec_set_flag, spec_update_window, spec_window_drag};
use crate::scheme::{size_fits, size_fits_exec, OrbitalScheme, SchemeError, SchemeView, WindowDragKind, WINDOW_BOUND};
use crate::window::WindowView;
use vstd::prelude::*;

verus! {

/// `s` after each of `flags`, in order, is set to `value` on window `id`.
#[verifier::opaque]
pub open spec fn flags_set(s: SchemeView, id: usize, flags: Seq<char>, value: bool) -> SchemeView
    decreases flags.len(),
{
    if flags.len() == 0 {
        s
    } else {
        flags_set(spec_set_flag(s, id, flags[0], value), id, flags.drop_first(), value)
    }
}

proof fn lemma_flags_set_step(s: SchemeView, id: usize, flags: Seq<char>, value: bool)
    ensures
        flags.len() == 0 ==> flags_set(s, id, flags, value) == s,
        flags.len() > 0 ==> flags_set(s, id, flags, value) == flags_set(
            spec_set_flag(s, id, flags[0], value),
            id,
            flags.drop_first(),
            value,
        ),
{
    reveal(flags_set);
}

proof fn lemma_set_flag_keeps(s: SchemeView, id: usize, flag: char, value: bool)
    requires
        s.windows.contains_key(id),
    ensures
        spec_set_flag(s, id, flag, value).windows.contains_key(id),
{
}

/// `s` with window `id` replaced by `w`.
pub open spec fn with_window(s: SchemeView, id: usize, w: WindowView) -> SchemeView {
    SchemeView { windows: s.windows.insert(id, w), ..s }
}

/// The numbers of the request `c` of window `id` stay within the bounds of
/// the server: a place within the window bounds; sizes that are not
/// negative, and, where the window is there, a new size it can hold.
pub open spec fn command_fits(s: SchemeView, id: usize, c: CommandView) -> bool {
    match c {
        CommandView::Position(x, y) => (x matches Some(v) ==> in_win(v as int)) && (y matches Some(
            v,
        ) ==> in_win(v as int)),
        CommandView::Resize(w, h) => {
            &&& (w matches Some(v) ==> 0 <= v)
            &&& (h matches Some(v) ==> 0 <= v)
            &&& s.windows.contains_key(id) ==> size_fits(
                match w {
                    Some(v) => v as int,
                    None => s.windows[id].width,
                },
                match h {
                    Some(v) => v as int,
                    None => s.windows[id].height,
                },
            )
        },
        _ => true,
    }
}

/// Whether the request `c` of window `id` succeeds, and the state after it: a
/// request about a window that is not there fails and changes nothing,
/// except a drag by a window that is not hovered and an empty list of flags,
/// which succeed and do nothing.
pub open spec fn spec_command(s: SchemeView, id: usize, c: CommandView) -> (bool, SchemeView) {
    let here = s.windows.contains_key(id);
    let w = s.windows[id];
    let gone = (false, s);
    match c {
        CommandView::Async(b) => if here {
            (true, with_window(s, id, WindowView { asynchronous: b, ..w }))
        } else {
            gone
        },
        CommandView::Drag => if s.hover == Some(id) && !here {
            gone
        } else {
            (true, spec_window_drag(s, id, WindowDragKind::Move))
        },
        CommandView::SetFlags(flags, value) => if flags.len() > 0 && !here {
            gone
        } else {
            (true, flags_set(s, id, flags, value))
        },
        CommandView::MouseCursor(b) => if here {
            (true, with_window(s, id, WindowView { mouse_cursor: b, ..w }))
        } else {
            gone
        },
        CommandView::MouseGrab(b) => if here {
            (true, with_window(s, id, WindowView { mouse_grab: b, ..w }))
        } else {
            gone
        },
        CommandView::MouseRelative(b) => if here {
            (true, with_window(s, id, WindowView { mouse_relative: b, ..w }))
        } else {
            gone
        },
        CommandView::Position(x, y) => if here {
            let nx = match x {
                Some(v) => v as int,
                None => w.x,
            };
            let ny = match y {
                Some(v) => v as int,
                None => w.y,
            };
            (true, spec_update_window(s, id, WindowView { x: nx, y: ny, ..w }))
        } else {
            gone
        },
        CommandView::Resize(ow, oh) => if here {
            let nw = match ow {
                Some(v) => v as int,
                None => w.width,
            };
            let nh = match oh {
                Some(v) => v as int,
                None => w.height,
            };
            (
                true,
                spec_update_window(
                    s,
                    id,
                    if nw == w.width && nh == w.height {
                        w
                    } else {
                        resized(w, nw, nh)
                    },
                ),
            )
        } else {
            gone
        },
        CommandView::Title(t) => if here {
            let w2 = WindowView { title: t, ..w };
            (
                true,
                SchemeView {
                    windows: s.windows.insert(id, w2),
                    redraws: spec_schedule(s.redraws, w2.title_rect()),
                    ..s
                },
            )
        } else {
            gone
        },
    }
}

fn within_window_bound(v: Option<i32>) -> (r: bool)
    ensures
        r == (v matches Some(n) ==> in_win(n as int)),
{
    match v {
        Some(n) => -WINDOW_BOUND <= n && n <= WINDOW_BOUND,
        None => true,
    }
}

fn not_negative(v: Option<i32>) -> (r: bool)
    ensures
        r == (v matches Some(n) ==> 0 <= n),
{
    match v {
        Some(n) => 0 <= n,
        None => true,
    }
}

impl OrbitalScheme {
    /// Whether the numbers of the request `cmd` of window `id` stay within
    /// the bounds of the server.
    pub fn command_fits_exec(&self, id: usize, cmd: &WindowCommand) -> (b: bool)
        requires
            self.wf(),
        ensures
            b == command_fits(self@, id, cmd@),
    {
        match cmd {
            WindowCommand::Position(x, y) => within_window_bound(*x) && within_window_bound(*y),
            WindowCommand::Resize(w, h) => {
                if !not_negative(*w) || !not_negative(*h) {
                    return false;
                }
                match self.geometry(id) {
                    Some((_, _, ww, wh)) => {
                        let nw = match w {
                            Some(v) => *v,
                            None => ww,
                        };
                        let nh = match h {
                            Some(v) => *v,
                            None => wh,
                        };
                        size_fits_exec(nw, nh)
                    },
                    None => true,
                }
            },
            _ => true,
        }
    }
}

/// The size a client asks for, as the resize request takes it.
fn size_of(v: Option<i32>) -> (r: Option<u32>)
    requires
        v matches Some(n) ==> 0 <= n,
    ensures
        r == (match v {
            Some(n) => Some(n as u32),
            None => None::<u32>,
        }),
{
    match v {
        Some(n) => Some(n as u32),
        None => None,
    }
}

impl OrbitalScheme {
    /// Carries out the request `cmd` of window `id`, as `spec_command` says.
    #[verifier::rlimit(80)]
    pub fn handle_command(&mut self, id: usize, cmd: WindowCommand) -> (r: Result<(), SchemeError>)
        requires
            old(self).wf(),
            command_fits(old(self)@, id, cmd@),
        ensures
            final(self).wf(),
            r is Ok == spec_command(old(self)@, id, cmd@).0,
            r is Err ==> r == Err::<(), SchemeError>(SchemeError::NoWindow),
            final(self)@ == spec_command(old(self)@, id, cmd@).1,
    {
        match cmd {
            WindowCommand::Async(b) => self.handle_window_async(id, b),
            WindowCommand::Drag => self.handle_window_drag(id, WindowDragKind::Move),
            WindowCommand::SetFlags(flags, value) => self.handle_flags(id, &flags, value),
            WindowCommand::MouseCursor(b) => self.handle_window_mouse_cursor(id, b),
            WindowCommand::MouseGrab(b) => self.handle_window_mouse_grab(id, b),
            WindowCommand::MouseRelative(b) => self.handle_window_mouse_relative(id, b),
            WindowCommand::Position(x, y) => self.handle_window_position(id, x, y),
            WindowCommand::Resize(w, h) => self.handle_window_resize(id, size_of(w), size_of(h)),
            WindowCommand::Title(t) => self.handle_window_title(id, t),
        }
    }

    /// Sets flag `flag`, the first of `rest`, to `value` on window `id`.
    fn set_flag_step(&mut self, id: usize, flag: char, value: bool, Ghost(rest): Ghost<Seq<char>>) -> (r: Result<(), SchemeError>)
        requires
            old(self).wf(),
            rest.len() > 0,
            rest[0] == flag,
        ensures
            final(self).wf(),
            r is Ok ==> old(self)@.windows.contains_key(id) && final(self)@.windows.contains_key(id)
                && flags_set(old(self)@, id, rest, value) == flags_set(final(self)@, id, rest.drop_first(), value),
            r is Err ==> r == Err::<(), SchemeError>(SchemeError::NoWindow) && !old(self)@.windows.contains_key(id)
                && final(self)@ == old(self)@,
    {
        let ghost before = self@;
        let r = self.handle_window_set_flag(id, flag, value);
        proof {
            if r is Ok {
                lemma_set_flag_keeps(before, id, flag, value);
                lemma_flags_set_step(before, id, rest, value);
            }
        }
        r
    }

    /// Sets each of `flags`, in order, to `value` on window `id`; stops at
    /// the first failure.
    #[verifier::rlimit(40)]
    fn handle_flags(&mut self, id: usize, flags: &Vec<char>, value: bool) -> (r: Result<(), SchemeError>)
        requires
            old(self).wf(),
        ensures
            final(self).wf(),
            r is Ok == spec_command(old(self)@, id, CommandView::SetFlags(flags@, value)).0,
            r is Err ==> r == Err::<(), SchemeError>(SchemeError::NoWindow),
            final(self)@ == spec_command(old(self)@, id, CommandView::SetFlags(flags@, value)).1,
    {
        let ghost s0 = self@;
        let n = flags.len();
        let mut i: usize = 0;
        proof {
            assert(flags@.skip(0) =~= flags@);
        }
        while i < n
            invariant
                n == flags@.len(),
                i <= n,
                s0 == old(self)@,
                self.wf(),
                flags_set(self@, id, flags@.skip(i as int), value) == flags_set(s0, id, flags@, value),
                i > 0 ==> s0.windows.contains_key(id) && self@.windows.contains_key(id),
                i == 0 ==> self@ == s0,
            decreases n - i,
        {
            let ghost before = self@;
            proof {
                assert(flags@.skip(i as int)[0] == flags@[i as int]);
                assert(flags@.skip(i as int).drop_first() =~= flags@.skip(i + 1));
            }
            match self.set_flag_step(id, flags[i], value, Ghost(flags@.skip(i as int))) {
                Ok(()) => {},
                Err(e) => {
                    proof {
                        assert(i == 0);
                        assert(self@ == s0);
                        assert(!s0.windows.contains_key(id));
                    }
                    return Err(e);
                },
            }
            i = i + 1;
        }
        proof {
            assert(flags@.skip(n as int) =~= Seq::<char>::empty());
            lemma_flags_set_step(self@, id, flags@.skip(n as int), value);
        }
        Ok(())
    }
}

} // verus!
