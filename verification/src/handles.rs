//! The files clients open on the display server: the root of the scheme,
//! the size of a display, a window and its clipboard, and what each request
//! on them does.
use crate::background::{decimal, push_decimal};
use crate::color::Color;
use crate::command::{command_fits, spec_command};
use crate::event::Event;
use crate::protocol::{parse_command, parse_open, spec_parse_command, spec_parse_open, OpenRequest, OpenView};
use crate::rect::spec_min;
use crate::scheme::{drag_fits, in_win, size_fits, size_fits_exec, spec_close, spec_window_new, OrbitalScheme, SchemeView};
use crate::window::WindowView;
use std::collections::BTreeMap;
use vstd::prelude::*;
use vstd::string::StringExecFns;

verus! {

/// What an open file of the scheme refers to.
#[derive(Clone, Copy, Debug, PartialEq, Eq, Structural)]
pub enum Handle {
    /// The root of the scheme, where windows and displays are opened.
    SchemeRoot,
    /// The size of display `n`.
    DisplaySize(usize),
    /// A window.
    Window(usize),
    /// The clipboard, opened from a window.
    Clipboard(usize),
}

/// Why a request on an open file is refused.
#[derive(Clone, Copy, Debug, PartialEq, Eq, Structural)]
pub enum RequestError {
    /// The file is not open, not of the right kind, or its window is gone.
    BadHandle,
    /// Only the root of the scheme opens windows and displays.
    NotPermitted,
    /// The request is malformed or out of bounds.
    Invalid,
}

impl RequestError {
    /// The error number the request answers with.
    pub fn errno(&self) -> (n: i32)
        ensures
            n == match self {
                RequestError::BadHandle => 9i32,
                RequestError::NotPermitted => 13i32,
                RequestError::Invalid => 22i32,
            },
    {
        match self {
            RequestError::BadHandle => 9,
            RequestError::NotPermitted => 13,
            RequestError::Invalid => 22,
        }
    }
}

/// The window a file refers to: its own, or the one its clipboard was opened
/// from.
pub open spec fn window_of(h: Handle) -> Option<usize> {
    match h {
        Handle::Window(w) => Some(w),
        Handle::Clipboard(w) => Some(w),
        _ => None,
    }
}

/// The numbers of a new window stay within the bounds of the server, and the
/// server can take one more window.
pub open spec fn window_args_fit(s: SchemeView, x: i32, y: i32, w: i32, h: i32) -> bool {
    &&& size_fits(w as int, h as int)
    &&& (x < 0 && y < 0) || (in_win(x as int) && in_win(y as int))
    &&& s.next_id < isize::MAX - 1
    &&& drag_fits(s, s.cursor_x, s.cursor_y)
}

/// The UTF-8 text that the bytes encode, if they are valid UTF-8.
pub uninterp spec fn utf8_text(bytes: Seq<u8>) -> Option<Seq<char>>;

/// Reads `bytes` as UTF-8 with `std::str::from_utf8`; the contract names the
/// result, which is a function of the bytes.
#[verifier::external_body]
fn utf8(bytes: &[u8]) -> (r: Option<&str>)
    ensures
        match r {
            Some(s) => utf8_text(bytes@) == Some(s@),
            None => utf8_text(bytes@) is None,
        },
{
    match std::str::from_utf8(bytes) {
        Ok(s) => Some(s),
        Err(_) => None,
    }
}

/// `n` in decimal, with a minus sign when negative.
pub open spec fn signed_decimal(n: int) -> Seq<char> {
    if n < 0 {
        seq!['-'] + decimal((-n) as nat)
    } else {
        decimal(n as nat)
    }
}

/// The path of a display size file: `orbital:99.<n>/<width>/<height>`.
pub open spec fn display_path(n: int, w: int, h: int) -> Seq<char> {
    seq!['o', 'r', 'b', 'i', 't', 'a', 'l', ':', '9', '9', '.'] + decimal(n as nat) + seq!['/']
        + decimal(w as nat) + seq!['/'] + decimal(h as nat)
}

/// The path of a window file: `<flags>/<x>/<y>/<width>/<height>/<title>`.
pub open spec fn window_path(w: WindowView) -> Seq<char> {
    w.flags() + seq!['/'] + signed_decimal(w.x) + seq!['/'] + signed_decimal(w.y) + seq!['/']
        + decimal(w.width as nat) + seq!['/'] + decimal(w.height as nat) + seq!['/'] + w.title
}

/// The bytes `clipboard`, with which a window opens the clipboard.
pub open spec fn clipboard_request() -> Seq<u8> {
    seq![99u8, 108u8, 105u8, 112u8, 98u8, 111u8, 97u8, 114u8, 100u8]
}

fn is_clipboard_request(buf: &[u8]) -> (b: bool)
    ensures
        b == (buf@ == clipboard_request()),
{
    let r = buf.len() == 9 && buf[0] == 99 && buf[1] == 108 && buf[2] == 105 && buf[3] == 112
        && buf[4] == 98 && buf[5] == 111 && buf[6] == 97 && buf[7] == 114 && buf[8] == 100;
    proof {
        if r {
            assert(buf@ =~= clipboard_request());
        }
        if buf@ == clipboard_request() {
            assert(buf@[0] == 99u8 && buf@[8] == 100u8);
        }
    }
    r
}

/// Appends `n` in decimal, with a minus sign when negative, to `s`.
fn push_signed(s: &mut String, n: i32)
    ensures
        final(s)@ == old(s)@ + signed_decimal(n as int),
{
    if n < 0 {
        proof {
            reveal_strlit("-");
        }
        s.append("-");
        let m: i64 = -(n as i64);
        push_decimal(s, m as u64);
        assert(final(s)@ =~= old(s)@ + signed_decimal(n as int)) by {
            assert((-n) as nat == m as u64 as nat);
        }
    } else {
        push_decimal(s, n as u64);
    }
}

/// The open files of the scheme, by number, and the display server they
/// act on.
pub struct OrbitalHandler {
    scheme: OrbitalScheme,
    handles: BTreeMap<usize, Handle>,
    next_id: usize,
}

impl OrbitalHandler {
    /// The open files by number.
    pub closed spec fn handles(&self) -> Map<usize, Handle> {
        self.handles@
    }

    /// The state of the display server.
    pub closed spec fn server(&self) -> SchemeView {
        self.scheme@
    }

    /// The number the next file opened gets.
    pub closed spec fn next_handle(&self) -> int {
        self.next_id as int
    }

    /// The server is in a good state, and every open file has a number
    /// below the next one.
    pub closed spec fn wf(&self) -> bool {
        &&& self.scheme.wf()
        &&& forall|k: usize| #[trigger] self.handles().contains_key(k) ==> k < self.next_handle()
    }

    /// The files and the server are as they were.
    pub open spec fn unchanged(&self, old: &OrbitalHandler) -> bool {
        &&& self.handles() == old.handles()
        &&& self.next_handle() == old.next_handle()
        &&& self.server() == old.server()
    }

    /// No file is open on `scheme`.
    pub fn new(scheme: OrbitalScheme) -> (r: OrbitalHandler)
        requires
            scheme.wf(),
        ensures
            r.wf(),
            r.server() == scheme@,
            r.handles() == Map::<usize, Handle>::empty(),
            r.next_handle() == 0,
    {
        let r = OrbitalHandler { scheme, handles: BTreeMap::new(), next_id: 0 };
        assert(r.handles() =~= Map::<usize, Handle>::empty());
        r
    }

    /// The display server.
    pub fn scheme(&self) -> (r: &OrbitalScheme)
        requires
            self.wf(),
        ensures
            r@ == self.server(),
            r.wf(),
    {
        &self.scheme
    }

    /// The display server, to change; the files stay as they are.
    pub fn scheme_mut(&mut self) -> (r: &mut OrbitalScheme)
        requires
            old(self).wf(),
        ensures
            r@ == old(self).server(),
            r.wf(),
            final(self).server() == final(r)@,
            final(self).handles() == old(self).handles(),
            final(self).next_handle() == old(self).next_handle(),
            final(r).wf() ==> final(self).wf(),
    {
        &mut self.scheme
    }

    /// Whether another file can be opened: a number is left for it.
    pub fn can_open(&self) -> (b: bool)
        ensures
            b == (self.next_handle() < usize::MAX),
    {
        self.next_id < usize::MAX
    }

    /// What file `id` refers to, if it is open.
    pub fn handle(&self, id: usize) -> (r: Option<Handle>)
        ensures
            r == (if self.handles().contains_key(id) {
                Some(self.handles()[id])
            } else {
                None::<Handle>
            }),
    {
        match self.handles.get(&id) {
            Some(h) => Some(*h),
            None => None,
        }
    }

    /// Every file opened gets a number that no open file has.
    pub proof fn lemma_next_handle_fresh(&self)
        requires
            self.wf(),
        ensures
            !self.handles().contains_key(self.next_handle() as usize),
    {
        let k = self.next_handle() as usize;
        assert(k as int == self.next_handle());
        if self.handles().contains_key(k) {
            assert(k < self.next_handle());
        }
    }

    /// Opens a file that refers to `h`; the result is its number.
    fn add_handle(&mut self, h: Handle) -> (id: usize)
        requires
            old(self).wf(),
            old(self).next_handle() < usize::MAX,
        ensures
            final(self).wf(),
            id == old(self).next_handle(),
            final(self).handles() == old(self).handles().insert(id, h),
            final(self).next_handle() == old(self).next_handle() + 1,
            final(self).server() == old(self).server(),
    {
        let id = self.next_id;
        self.handles.insert(id, h);
        self.next_id = id + 1;
        proof {
            assert forall|k: usize| #[trigger] self.handles().contains_key(k) implies k
                < self.next_handle() by {
                if k != id {
                    assert(old(self).handles().contains_key(k));
                }
            }
        }
        id
    }

    /// Opens the root of the scheme.
    pub fn scheme_root(&mut self) -> (id: usize)
        requires
            old(self).wf(),
            old(self).next_handle() < usize::MAX,
        ensures
            final(self).wf(),
            id == old(self).next_handle(),
            final(self).handles() == old(self).handles().insert(id, Handle::SchemeRoot),
            final(self).next_handle() == old(self).next_handle() + 1,
            final(self).server() == old(self).server(),
    {
        self.add_handle(Handle::SchemeRoot)
    }

    /// Opens `path` from the file `dirfd`, which must be the root: `99.<n>`
    /// opens the size of display `n`, anything else a new window, as
    /// `parse_open` reads it. The result is the number of the new file.
    pub fn openat(&mut self, dirfd: usize, path: &str) -> (r: Result<usize, RequestError>)
        requires
            old(self).wf(),
            old(self).next_handle() < usize::MAX,
        ensures
            final(self).wf(),
            !old(self).handles().contains_key(dirfd) ==> r == Err::<usize, RequestError>(
                RequestError::BadHandle,
            ) && final(self).unchanged(old(self)),
            old(self).handles().contains_key(dirfd) && old(self).handles()[dirfd] != Handle::SchemeRoot
                ==> r == Err::<usize, RequestError>(RequestError::NotPermitted) && final(self).unchanged(old(self)),
            old(self).handles().contains_key(dirfd) && old(self).handles()[dirfd] == Handle::SchemeRoot
                ==> match spec_parse_open(path@) {
                OpenView::DisplaySize(Some(n)) => if n < old(self).server().screens.len() {
                    &&& r == Ok::<usize, RequestError>(old(self).next_handle() as usize)
                    &&& final(self).handles() == old(self).handles().insert(
                        old(self).next_handle() as usize,
                        Handle::DisplaySize(n),
                    )
                    &&& final(self).next_handle() == old(self).next_handle() + 1
                    &&& final(self).server() == old(self).server()
                } else {
                    r == Err::<usize, RequestError>(RequestError::Invalid) && final(self).unchanged(old(self))
                },
                OpenView::DisplaySize(None) => r == Err::<usize, RequestError>(RequestError::Invalid)
                    && final(self).unchanged(old(self)),
                OpenView::Window { flags, x, y, width, height, title } => if window_args_fit(
                    old(self).server(),
                    x,
                    y,
                    width,
                    height,
                ) {
                    let (w, s2) = spec_window_new(
                        old(self).server(),
                        x as int,
                        y as int,
                        width as int,
                        height as int,
                        flags,
                        title,
                    );
                    &&& r == Ok::<usize, RequestError>(old(self).next_handle() as usize)
                    &&& final(self).handles() == old(self).handles().insert(
                        old(self).next_handle() as usize,
                        Handle::Window(w),
                    )
                    &&& final(self).next_handle() == old(self).next_handle() + 1
                    &&& final(self).server() == s2
                } else {
                    r == Err::<usize, RequestError>(RequestError::Invalid) && final(self).unchanged(old(self))
                },
            },
    {
        match self.handles.get(&dirfd) {
            Some(h) => {
                if *h != Handle::SchemeRoot {
                    return Err(RequestError::NotPermitted);
                }
            },
            None => {
                return Err(RequestError::BadHandle);
            },
        }
        match parse_open(path) {
            OpenRequest::DisplaySize(Some(n)) => {
                if n < self.scheme.display_count() {
                    Ok(self.add_handle(Handle::DisplaySize(n)))
                } else {
                    Err(RequestError::Invalid)
                }
            },
            OpenRequest::DisplaySize(None) => Err(RequestError::Invalid),
            OpenRequest::Window { flags, x, y, width, height, title } => {
                let fits = size_fits_exec(width, height)
                    && ((x < 0 && y < 0) || (-crate::scheme::WINDOW_BOUND <= x && x
                    <= crate::scheme::WINDOW_BOUND && -crate::scheme::WINDOW_BOUND <= y && y
                    <= crate::scheme::WINDOW_BOUND)) && self.scheme.can_add_window();
                if !fits {
                    return Err(RequestError::Invalid);
                }
                match self.scheme.handle_window_new(
                    x,
                    y,
                    width as u32,
                    height as u32,
                    flags.as_str(),
                    title,
                ) {
                    Ok(w) => Ok(self.add_handle(Handle::Window(w))),
                    Err(_) => Err(RequestError::Invalid),
                }
            },
        }
    }

    /// From a window file `id`, the bytes `clipboard` open its clipboard;
    /// the result is the number of the new file.
    pub fn dup(&mut self, id: usize, buf: &[u8]) -> (r: Result<usize, RequestError>)
        requires
            old(self).wf(),
            old(self).next_handle() < usize::MAX,
        ensures
            final(self).wf(),
            match (if old(self).handles().contains_key(id) {
                window_of(old(self).handles()[id])
            } else {
                None
            }) {
                None => r == Err::<usize, RequestError>(RequestError::BadHandle) && final(self).unchanged(old(self)),
                Some(w) => if buf@ == clipboard_request() {
                    &&& r == Ok::<usize, RequestError>(old(self).next_handle() as usize)
                    &&& final(self).handles() == old(self).handles().insert(
                        old(self).next_handle() as usize,
                        Handle::Clipboard(w),
                    )
                    &&& final(self).next_handle() == old(self).next_handle() + 1
                    &&& final(self).server() == old(self).server()
                } else {
                    r == Err::<usize, RequestError>(RequestError::Invalid) && final(self).unchanged(old(self))
                },
            },
    {
        let w = match self.handles.get(&id) {
            Some(Handle::Window(w)) => *w,
            Some(Handle::Clipboard(w)) => *w,
            _ => {
                return Err(RequestError::BadHandle);
            },
        };
        if is_clipboard_request(buf) {
            Ok(self.add_handle(Handle::Clipboard(w)))
        } else {
            Err(RequestError::Invalid)
        }
    }

    /// Whether file `id` is a clipboard.
    pub fn is_clipboard(&self, id: usize) -> (b: bool)
        ensures
            b == (self.handles().contains_key(id) && self.handles()[id] is Clipboard),
    {
        match self.handles.get(&id) {
            Some(Handle::Clipboard(_)) => true,
            _ => false,
        }
    }

    /// Reads the pending events of window file `id` into `buf`, as
    /// `OrbitalScheme::handle_window_read` says; the result is their number.
    pub fn read_events(&mut self, id: usize, buf: &mut [Event]) -> (r: Result<usize, RequestError>)
        requires
            old(self).wf(),
        ensures
            final(self).wf(),
            final(self).handles() == old(self).handles(),
            final(self).next_handle() == old(self).next_handle(),
            match (if old(self).handles().contains_key(id) {
                old(self).handles()[id]
            } else {
                Handle::SchemeRoot
            }) {
                Handle::Window(w) => {
                    let win = old(self).server().windows[w];
                    let n = spec_min(win.events.len() as int, old(buf)@.len() as int);
                    if old(self).server().windows.contains_key(w) {
                        &&& r == Ok::<usize, RequestError>(n as usize)
                        &&& final(buf)@ == win.events.take(n) + old(buf)@.skip(n)
                        &&& final(self).server() == (SchemeView {
                            windows: old(self).server().windows.insert(
                                w,
                                WindowView { events: win.events.skip(n), ..win },
                            ),
                            ..old(self).server()
                        })
                    } else {
                        r == Err::<usize, RequestError>(RequestError::BadHandle) && final(self).server()
                            == old(self).server() && final(buf)@ == old(buf)@
                    }
                },
                _ => r == Err::<usize, RequestError>(RequestError::BadHandle) && final(self).server()
                    == old(self).server() && final(buf)@ == old(buf)@,
            },
    {
        let w = match self.handles.get(&id) {
            Some(Handle::Window(w)) => *w,
            _ => {
                return Err(RequestError::BadHandle);
            },
        };
        match self.scheme.handle_window_read(w, buf) {
            Ok(n) => Ok(n),
            Err(_) => Err(RequestError::BadHandle),
        }
    }

    /// Reads the clipboard through clipboard file `id` at `offset`, as
    /// `OrbitalScheme::handle_clipboard_read` says.
    pub fn read_clipboard(&mut self, id: usize, offset: u64, buf: &mut [u8]) -> (r: Result<usize, RequestError>)
        requires
            old(self).wf(),
        ensures
            final(self).wf(),
            final(self).unchanged(old(self)),
            (old(self).handles().contains_key(id) && old(self).handles()[id] is Clipboard) ==> {
                let n = crate::scheme::clipboard_read_len(
                    old(self).server().clipboard,
                    offset as usize as int,
                    old(buf)@.len() as int,
                );
                &&& r == Ok::<usize, RequestError>(n as usize)
                &&& final(buf)@ == old(self).server().clipboard.take(n) + old(buf)@.skip(n)
            },
            !(old(self).handles().contains_key(id) && old(self).handles()[id] is Clipboard) ==> r
                == Err::<usize, RequestError>(RequestError::BadHandle) && final(buf)@ == old(buf)@,
    {
        let w = match self.handles.get(&id) {
            Some(Handle::Clipboard(w)) => *w,
            _ => {
                return Err(RequestError::BadHandle);
            },
        };
        match self.scheme.handle_clipboard_read(w, offset, buf) {
            Ok(n) => Ok(n),
            Err(_) => Err(RequestError::BadHandle),
        }
    }

    /// Carries out the request `text` of window `w`, as `parse_command`
    /// reads it and `OrbitalScheme::handle_command` carries it out.
    pub fn command_text(&mut self, w: usize, text: &str) -> (r: Result<(), RequestError>)
        requires
            old(self).wf(),
        ensures
            final(self).wf(),
            final(self).handles() == old(self).handles(),
            final(self).next_handle() == old(self).next_handle(),
            match spec_parse_command(text@) {
                Some(c) => if command_fits(old(self).server(), w, c) {
                    let (ok, s2) = spec_command(old(self).server(), w, c);
                    &&& r == (if ok {
                        Ok::<(), RequestError>(())
                    } else {
                        Err(RequestError::BadHandle)
                    })
                    &&& final(self).server() == s2
                } else {
                    r == Err::<(), RequestError>(RequestError::Invalid) && final(self).server() == old(self).server()
                },
                None => r == Err::<(), RequestError>(RequestError::Invalid) && final(self).server()
                    == old(self).server(),
            },
    {
        let r = match parse_command(text) {
            Some(cmd) => {
                if !self.scheme.command_fits_exec(w, &cmd) {
                    Err(RequestError::Invalid)
                } else {
                    match self.scheme.handle_command(w, cmd) {
                        Ok(()) => Ok(()),
                        Err(_) => Err(RequestError::BadHandle),
                    }
                }
            },
            None => Err(RequestError::Invalid),
        };
        proof {
            assert forall|k: usize| #[trigger] self.handles().contains_key(k) implies k
                < self.next_handle() by {
                assert(old(self).handles().contains_key(k));
            }
        }
        r
    }

    /// Writes `buf` to file `id`: to a clipboard file, into the clipboard at
    /// `offset`; to a window file, as a request in UTF-8 text. The result is
    /// the number of bytes taken.
    pub fn write(&mut self, id: usize, offset: u64, buf: &[u8]) -> (r: Result<usize, RequestError>)
        requires
            old(self).wf(),
        ensures
            final(self).wf(),
            final(self).handles() == old(self).handles(),
            final(self).next_handle() == old(self).next_handle(),
            match (if old(self).handles().contains_key(id) {
                old(self).handles()[id]
            } else {
                Handle::SchemeRoot
            }) {
                Handle::Clipboard(_) => {
                    let clip = old(self).server().clipboard;
                    let kept = spec_min(offset as usize as int, clip.len() as int);
                    if kept + buf@.len() <= i64::MAX {
                        &&& r == Ok::<usize, RequestError>(buf@.len() as usize)
                        &&& final(self).server() == (SchemeView {
                            clipboard: clip.take(kept) + buf@,
                            ..old(self).server()
                        })
                    } else {
                        r == Err::<usize, RequestError>(RequestError::Invalid) && final(self).server()
                            == old(self).server()
                    }
                },
                Handle::Window(w) => match utf8_text(buf@) {
                    Some(text) => match spec_parse_command(text) {
                        Some(c) => if command_fits(old(self).server(), w, c) {
                            let (ok, s2) = spec_command(old(self).server(), w, c);
                            &&& r == (if ok {
                                Ok::<usize, RequestError>(buf@.len() as usize)
                            } else {
                                Err(RequestError::BadHandle)
                            })
                            &&& final(self).server() == s2
                        } else {
                            r == Err::<usize, RequestError>(RequestError::Invalid) && final(self).server() == old(self).server()
                        },
                        None => r == Err::<usize, RequestError>(RequestError::Invalid) && final(self).server() == old(self).server(),
                    },
                    None => r == Err::<usize, RequestError>(RequestError::Invalid) && final(self).server() == old(self).server(),
                },
                _ => r == Err::<usize, RequestError>(RequestError::BadHandle) && final(self).server()
                    == old(self).server(),
            },
    {
        match self.handles.get(&id) {
            Some(Handle::Clipboard(w)) => {
                let w = *w;
                let len = self.scheme.clipboard_len();
                let kept: usize = if (offset as usize) < len {
                    offset as usize
                } else {
                    len
                };
                if buf.len() as u64 > i64::MAX as u64 || kept as u64 > i64::MAX as u64 - buf.len() as u64 {
                    return Err(RequestError::Invalid);
                }
                match self.scheme.handle_clipboard_write(w, offset, buf) {
                    Ok(n) => Ok(n),
                    Err(_) => Err(RequestError::BadHandle),
                }
            },
            Some(Handle::Window(w)) => {
                let w = *w;
                match utf8(buf) {
                    Some(text) => match self.command_text(w, text) {
                        Ok(()) => Ok(buf.len()),
                        Err(e) => Err(e),
                    },
                    None => Err(RequestError::Invalid),
                }
            },
            _ => Err(RequestError::BadHandle),
        }
    }

    /// The path of file `id`: for a display size file the size of the
    /// display, for a window or clipboard file the flags, place, size and
    /// title of the window.
    pub fn fpath(&self, id: usize) -> (r: Result<String, RequestError>)
        requires
            self.wf(),
        ensures
            match (if self.handles().contains_key(id) {
                self.handles()[id]
            } else {
                Handle::SchemeRoot
            }) {
                Handle::DisplaySize(n) => if n < self.server().screens.len() {
                    r matches Ok(p) && p@ == display_path(
                        n as int,
                        self.server().screens[n as int].w,
                        self.server().screens[n as int].h,
                    )
                } else {
                    r == Err::<String, RequestError>(RequestError::Invalid)
                },
                Handle::Window(w) | Handle::Clipboard(w) => if self.server().windows.contains_key(w) {
                    r matches Ok(p) && p@ == window_path(self.server().windows[w])
                } else {
                    r == Err::<String, RequestError>(RequestError::BadHandle)
                },
                Handle::SchemeRoot => r == Err::<String, RequestError>(RequestError::BadHandle),
            },
    {
        proof {
            reveal_strlit("orbital:99.");
            reveal_strlit("/");
        }
        match self.handles.get(&id) {
            Some(Handle::DisplaySize(n)) => {
                let n = *n;
                if n >= self.scheme.display_count() {
                    return Err(RequestError::Invalid);
                }
                let (w, h, _) = self.scheme.display_size(n);
                let mut p = String::new();
                p.append("orbital:99.");
                push_decimal(&mut p, n as u64);
                p.append("/");
                push_decimal(&mut p, w as u64);
                p.append("/");
                push_decimal(&mut p, h as u64);
                assert(p@ =~= display_path(
                    n as int,
                    self.scheme@.screens[n as int].w,
                    self.scheme@.screens[n as int].h,
                ));
                Ok(p)
            },
            Some(Handle::Window(w)) | Some(Handle::Clipboard(w)) => {
                proof {
                    self.scheme.lemma_wf();
                }
                match self.scheme.handle_window_properties(*w) {
                    Ok(props) => {
                        assert(crate::scheme::placed(self.scheme@.windows[*w]));
                        let mut p = String::new();
                        p.append(props.flags.as_str());
                        p.append("/");
                        push_signed(&mut p, props.x);
                        p.append("/");
                        push_signed(&mut p, props.y);
                        p.append("/");
                        push_decimal(&mut p, props.width as u64);
                        p.append("/");
                        push_decimal(&mut p, props.height as u64);
                        p.append("/");
                        p.append(props.title);
                        assert(p@ =~= window_path(self.scheme@.windows[*w]));
                        Ok(p)
                    },
                    Err(_) => Err(RequestError::BadHandle),
                }
            },
            _ => Err(RequestError::BadHandle),
        }
    }

    /// Window or clipboard file `id` is flushed: its window is redrawn.
    pub fn fsync(&mut self, id: usize) -> (r: Result<(), RequestError>)
        requires
            old(self).wf(),
        ensures
            final(self).wf(),
            final(self).handles() == old(self).handles(),
            final(self).next_handle() == old(self).next_handle(),
            match (if old(self).handles().contains_key(id) {
                window_of(old(self).handles()[id])
            } else {
                None
            }) {
                Some(w) => if old(self).server().windows.contains_key(w) {
                    r == Ok::<(), RequestError>(()) && final(self).server() == crate::scheme::with_redraws(
                        old(self).server(),
                        crate::compositor::spec_schedule(
                            old(self).server().redraws,
                            old(self).server().windows[w].rect(),
                        ),
                    )
                } else {
                    r == Err::<(), RequestError>(RequestError::BadHandle) && final(self).server() == old(self).server()
                },
                None => r == Err::<(), RequestError>(RequestError::BadHandle) && final(self).server()
                    == old(self).server(),
            },
    {
        let w = match self.handles.get(&id) {
            Some(Handle::Window(w)) => *w,
            Some(Handle::Clipboard(w)) => *w,
            _ => {
                return Err(RequestError::BadHandle);
            },
        };
        match self.scheme.handle_window_sync(w, None) {
            Ok(()) => Ok(()),
            Err(_) => Err(RequestError::BadHandle),
        }
    }

    /// Maps the pixels of the window of file `id` for a client, counting the
    /// mapping, and checks that `size` bytes fit in them.
    pub fn mmap_prep(&mut self, id: usize, size: usize) -> (r: Result<&mut [Color], RequestError>)
        requires
            old(self).wf(),
        ensures
            match (if old(self).handles().contains_key(id) {
                window_of(old(self).handles()[id])
            } else {
                None
            }) {
                Some(w) => if !old(self).server().windows.contains_key(w) {
                    r == Err::<&mut [Color], RequestError>(RequestError::BadHandle)
                } else if old(self).server().windows[w].maps >= usize::MAX {
                    r == Err::<&mut [Color], RequestError>(RequestError::Invalid)
                } else if size > 4 * old(self).server().windows[w].pixels.len() {
                    r == Err::<&mut [Color], RequestError>(RequestError::Invalid)
                } else {
                    r matches Ok(d) && d@ == old(self).server().windows[w].pixels
                },
                None => r == Err::<&mut [Color], RequestError>(RequestError::BadHandle),
            },
    {
        let w = match self.handles.get(&id) {
            Some(Handle::Window(w)) => *w,
            Some(Handle::Clipboard(w)) => *w,
            _ => {
                return Err(RequestError::BadHandle);
            },
        };
        if !self.scheme.can_map(w) {
            return Err(RequestError::Invalid);
        }
        match self.scheme.handle_window_map(w, true) {
            Ok(data) => {
                let fits = match data.len().checked_mul(4) {
                    Some(bytes) => size <= bytes,
                    None => true,
                };
                if fits {
                    Ok(data)
                } else {
                    Err(RequestError::Invalid)
                }
            },
            Err(_) => Err(RequestError::BadHandle),
        }
    }

    /// A mapping of the pixels of the window of file `id` ends.
    pub fn munmap(&mut self, id: usize) -> (r: Result<(), RequestError>)
        requires
            old(self).wf(),
        ensures
            final(self).wf(),
            final(self).handles() == old(self).handles(),
            final(self).next_handle() == old(self).next_handle(),
            match (if old(self).handles().contains_key(id) {
                window_of(old(self).handles()[id])
            } else {
                None
            }) {
                Some(w) => if old(self).server().windows.contains_key(w) {
                    let win = old(self).server().windows[w];
                    r == Ok::<(), RequestError>(()) && final(self).server() == (SchemeView {
                        windows: old(self).server().windows.insert(
                            w,
                            WindowView { maps: crate::scheme::one_less(win.maps), ..win },
                        ),
                        ..old(self).server()
                    })
                } else {
                    r == Err::<(), RequestError>(RequestError::BadHandle) && final(self).server() == old(self).server()
                },
                None => r == Err::<(), RequestError>(RequestError::BadHandle) && final(self).server()
                    == old(self).server(),
            },
    {
        let w = match self.handles.get(&id) {
            Some(Handle::Window(w)) => *w,
            Some(Handle::Clipboard(w)) => *w,
            _ => {
                return Err(RequestError::BadHandle);
            },
        };
        match self.scheme.handle_window_unmap(w) {
            Ok(()) => Ok(()),
            Err(_) => Err(RequestError::BadHandle),
        }
    }

    /// Whether a read of file `id` waits for the next input when nothing is
    /// pending: a window or clipboard file does unless its window is
    /// asynchronous; other files never wait.
    pub fn should_delay(&self, id: usize) -> (b: bool)
        requires
            self.wf(),
        ensures
            b == match (if self.handles().contains_key(id) {
                window_of(self.handles()[id])
            } else {
                None
            }) {
                Some(w) => !(self.server().windows.contains_key(w) && self.server().windows[w].asynchronous),
                None => false,
            },
    {
        match self.handles.get(&id) {
            Some(Handle::Window(w)) => self.scheme.should_delay(*w),
            Some(Handle::Clipboard(w)) => self.scheme.should_delay(*w),
            _ => false,
        }
    }

    /// File `id` is closed by its client: closing a window file closes the
    /// window; the number stays taken.
    pub fn on_close(&mut self, id: usize)
        requires
            old(self).wf(),
            drag_fits(old(self).server(), old(self).server().cursor_x, old(self).server().cursor_y),
        ensures
            final(self).wf(),
            final(self).handles() == old(self).handles(),
            final(self).next_handle() == old(self).next_handle(),
            final(self).server() == if old(self).handles().contains_key(id) && old(self).handles()[id] is Window {
                spec_close(old(self).server(), old(self).handles()[id]->Window_0)
            } else {
                old(self).server()
            },
    {
        match self.handles.get(&id) {
            Some(Handle::Window(w)) => {
                let w = *w;
                self.scheme.handle_window_close(w);
            },
            _ => {},
        }
    }
}


/// Whether the answer to a read of a file is held back until the next input
/// arrives: when the file waited for input before the read (`delay`, as
/// `OrbitalHandler::should_delay` says) and the read gave no bytes. A held
/// read is read again at each input, and answered once it gives bytes or
/// no longer waits.
pub fn holds_read(delay: bool, answer: Option<usize>) -> (hold: bool)
    ensures
        hold == (delay && answer == Some(0usize)),
{
    match answer {
        Some(n) => delay && n == 0,
        None => false,
    }
}

} // verus!
