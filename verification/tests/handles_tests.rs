use orbital::color::Color;
use orbital::compositor::Compositor;
use orbital::config::Config;
use orbital::event::{Event, EVENT_FOCUS, EVENT_RESIZE};
use orbital::handles::{holds_read, Handle, OrbitalHandler, RequestError};
use orbital::rect::Rect;
use orbital::scheme::OrbitalScheme;
use std::rc::Rc;

fn handler() -> OrbitalHandler {
    let compositor = Compositor::new(vec![Rect::new(0, 0, 1920, 1080)], false);
    let scheme = OrbitalScheme::new(compositor, Rc::new(Config::default()), 1, vec![(16, 16); 7]);
    OrbitalHandler::new(scheme)
}

#[test]
fn errors_have_their_numbers() {
    assert_eq!(RequestError::BadHandle.errno(), syscall::EBADF);
    assert_eq!(RequestError::NotPermitted.errno(), syscall::EACCES);
    assert_eq!(RequestError::Invalid.errno(), syscall::EINVAL);
}

#[test]
fn open_display_size() {
    let mut h = handler();
    let root = h.scheme_root();
    assert_eq!(root, 0);
    assert_eq!(h.handle(root), Some(Handle::SchemeRoot));
    assert_eq!(h.openat(root, "99.0"), Ok(1));
    assert_eq!(h.handle(1), Some(Handle::DisplaySize(0)));
    assert_eq!(h.fpath(1), Ok("orbital:99.0/1920/1080".to_string()));
    assert_eq!(h.openat(root, "99.1"), Err(RequestError::Invalid));
    assert_eq!(h.openat(root, "99.x"), Err(RequestError::Invalid));
    assert_eq!(h.openat(1, "99.0"), Err(RequestError::NotPermitted));
    assert_eq!(h.openat(42, "99.0"), Err(RequestError::BadHandle));
    assert_eq!(h.fpath(root), Err(RequestError::BadHandle));
}

#[test]
fn open_window_and_talk_to_it() {
    let mut h = handler();
    let root = h.scheme_root();
    let win = h.openat(root, "r/10/20/300/200/Hello").unwrap();
    assert_eq!(h.handle(win), Some(Handle::Window(1)));
    assert_eq!(h.fpath(win), Ok("r/10/20/300/200/Hello".to_string()));
    assert_eq!(h.write(win, 0, b"T,New title"), Ok(11));
    assert_eq!(h.write(win, 0, b"P,-5,7"), Ok(6));
    assert_eq!(h.fpath(win), Ok("r/-5/7/300/200/New title".to_string()));
    assert_eq!(h.write(win, 0, b"X,1"), Err(RequestError::Invalid));
    assert_eq!(h.write(win, 0, &[0xff, 0xfe]), Err(RequestError::Invalid));
    assert_eq!(h.write(win, 0, b"P,999999999,0"), Err(RequestError::Invalid));
    assert_eq!(h.write(win, 0, b"S,100000,100000"), Err(RequestError::Invalid));
    let mut events = vec![Event::new(); 8];
    let n = h.read_events(win, &mut events).unwrap();
    assert!(n >= 2);
    assert_eq!((events[0].code, events[0].a, events[0].b), (EVENT_RESIZE, 300, 200));
    assert_eq!(events[1].code, EVENT_FOCUS);
    assert!(h.should_delay(win));
    assert_eq!(h.write(win, 0, b"A,1"), Ok(3));
    assert!(!h.should_delay(win));
    assert!(!h.should_delay(root));
    assert_eq!(h.fsync(win), Ok(()));
    assert_eq!(h.read_events(root, &mut events), Err(RequestError::BadHandle));
}

#[test]
fn large_resize_and_far_move() {
    let mut h = handler();
    let root = h.scheme_root();
    let win = h.openat(root, "r/10/20/300/200/Hello").unwrap();
    assert_eq!(h.write(win, 0, b"S,99999"), Ok(7));
    assert_eq!(h.fpath(win), Ok("r/10/20/99999/200/Hello".to_string()));
    assert_eq!(h.write(win, 0, b"S,40,30"), Ok(7));
    assert_eq!(h.write(win, 0, b"P,300000000,0"), Ok(13));
    assert_eq!(h.write(win, 0, b"P,99999999,-99999999"), Ok(20));
    assert_eq!(h.fpath(win), Ok("r/99999999/-99999999/40/30/Hello".to_string()));
}

#[test]
fn open_window_out_of_bounds() {
    let mut h = handler();
    let root = h.scheme_root();
    assert_eq!(h.openat(root, "r/10/20/-3/200/Bad"), Err(RequestError::Invalid));
    assert_eq!(h.openat(root, "r/10/20/100000/100000/Bad"), Err(RequestError::Invalid));
    assert_eq!(h.openat(root, "r/999999999/20/30/20/Bad"), Err(RequestError::Invalid));
    // both coordinates negative: the server places the window
    assert!(h.openat(root, "r/-1/-1/30/20/Placed").is_ok());
}

#[test]
fn clipboard_through_files() {
    let mut h = handler();
    let root = h.scheme_root();
    let win = h.openat(root, "/10/20/300/200/Hello").unwrap();
    assert_eq!(h.dup(win, b"paste"), Err(RequestError::Invalid));
    assert_eq!(h.dup(root, b"clipboard"), Err(RequestError::BadHandle));
    let clip = h.dup(win, b"clipboard").unwrap();
    assert!(h.is_clipboard(clip));
    assert!(!h.is_clipboard(win));
    assert_eq!(h.write(clip, 0, b"abc"), Ok(3));
    let mut buf = [0u8; 8];
    assert_eq!(h.read_clipboard(clip, 0, &mut buf), Ok(3));
    assert_eq!(&buf[..3], b"abc");
    assert_eq!(h.read_clipboard(win, 0, &mut buf), Err(RequestError::BadHandle));
}

#[test]
fn map_close_and_forget() {
    let mut h = handler();
    let root = h.scheme_root();
    let win = h.openat(root, "/10/20/30/20/Hello").unwrap();
    {
        let data = h.mmap_prep(win, 30 * 20 * 4).unwrap();
        assert!(data.len() >= 30 * 20);
        data[0] = Color::rgb(1, 1, 1);
    }
    assert_eq!(h.scheme().window(1).unwrap().maps, 1);
    assert_eq!(h.mmap_prep(win, usize::MAX).err(), Some(RequestError::Invalid));
    assert_eq!(h.munmap(win), Ok(()));
    assert_eq!(h.scheme().window(1).unwrap().maps, 1);
    assert!(h.scheme().drag_fits_now());
    h.on_close(win);
    assert!(h.scheme().window(1).is_none());
    assert_eq!(h.fpath(win), Err(RequestError::BadHandle));
    assert_eq!(h.write(win, 0, b"A,1"), Err(RequestError::BadHandle));
    // the number stays taken
    assert_eq!(h.handle(win), Some(Handle::Window(1)));
}

#[test]
fn reads_that_give_nothing_wait_for_input() {
    assert!(holds_read(true, Some(0)));
    assert!(!holds_read(true, Some(3)));
    assert!(!holds_read(false, Some(0)));
    assert!(!holds_read(true, None));
}
