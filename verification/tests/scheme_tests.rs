use orbital::color::Color;
use orbital::compositor::{Compositor, CursorUpdate};
use orbital::config::Config;
use orbital::event::{Event, KeyEvent, K_SUPER, K_VOLUME_UP, EVENT_BUTTON, EVENT_FOCUS, EVENT_HOVER, EVENT_MOUSE, EVENT_RESIZE};
use orbital::rect::Rect;
use orbital::scheme::{KeyAction, OrbitalScheme, Popup, SchemeError, Volume};
use orbital::protocol::parse_command;
use std::rc::Rc;

fn config() -> Config {
    let mut c = Config::default();
    c.bar_color = Color::rgba(1, 2, 3, 200).into();
    c
}

fn scheme() -> OrbitalScheme {
    let compositor = Compositor::new(vec![Rect::new(0, 0, 1920, 1080)], false);
    OrbitalScheme::new(compositor, Rc::new(config()), 1, vec![(16, 16); 7])
}

fn read_all(s: &mut OrbitalScheme, id: usize) -> Vec<Event> {
    let mut buf = vec![Event::new(); 32];
    let n = s.handle_window_read(id, &mut buf).unwrap();
    buf.truncate(n);
    buf
}

fn key(scancode: u8, pressed: bool) -> KeyEvent {
    KeyEvent { character: '\0', scancode, pressed }
}

#[test]
fn new_scheme_has_no_window() {
    let s = scheme();
    assert_eq!(s.display_count(), 1);
    assert_eq!(s.display_size(0), (1920, 1080, 1));
    assert!(s.window(1).is_none());
    assert_eq!(s.popup(), Popup::Nothing);
    assert_eq!(s.volume_value(), 0);
    assert!(s.window_list().is_empty());
}

#[test]
fn window_new_takes_fresh_ids() {
    let mut s = scheme();
    assert_eq!(s.handle_window_new(10, 20, 300, 200, "r", "Hello".to_string()), Ok(1));
    assert_eq!(s.handle_window_new(500, 20, 300, 200, "", "Two".to_string()), Ok(2));
    let w = s.window(1).unwrap();
    assert_eq!((w.x, w.y, w.width(), w.height()), (10, 20, 300, 200));
    assert!(w.resizable);
    assert_eq!(w.title, "Hello");
    assert!(Rc::ptr_eq(&w.config, &s.window(2).unwrap().config));
    let bar: Color = w.config.bar_color.into();
    assert_eq!(bar.data, Color::rgba(1, 2, 3, 200).data);
    assert_eq!(s.window_list(), vec![2, 1]);
}

#[test]
fn new_window_is_told_its_size_and_focus() {
    let mut s = scheme();
    s.handle_window_new(10, 20, 300, 200, "", "Hello".to_string()).unwrap();
    let events = read_all(&mut s, 1);
    assert!(events.len() >= 2);
    assert_eq!((events[0].code, events[0].a, events[0].b), (EVENT_RESIZE, 300, 200));
    assert_eq!((events[1].code, events[1].a), (EVENT_FOCUS, 1));
    // the queue is empty after a read
    assert!(read_all(&mut s, 1).is_empty());
}

#[test]
fn focus_moves_to_new_window() {
    let mut s = scheme();
    s.handle_window_new(10, 20, 300, 200, "", "One".to_string()).unwrap();
    read_all(&mut s, 1);
    s.handle_window_new(500, 20, 300, 200, "", "Two".to_string()).unwrap();
    let events = read_all(&mut s, 1);
    assert_eq!((events[0].code, events[0].a), (EVENT_FOCUS, 0));
    let mut total = None;
    s.redraw(&mut total);
    assert_eq!(s.windows_back_to_front(), vec![(1, false), (2, true)]);
    assert!(total.is_some());
}

#[test]
fn back_window_stays_behind() {
    let mut s = scheme();
    s.handle_window_new(10, 20, 300, 200, "b", "Back".to_string()).unwrap();
    s.handle_window_new(500, 20, 300, 200, "", "Two".to_string()).unwrap();
    s.handle_window_new(900, 20, 300, 200, "f", "Front".to_string()).unwrap();
    let mut total = None;
    s.redraw(&mut total);
    assert_eq!(s.windows_back_to_front(), vec![(1, false), (2, false), (3, true)]);
}

#[test]
fn close_forgets_the_window() {
    let mut s = scheme();
    s.handle_window_new(10, 20, 300, 200, "", "One".to_string()).unwrap();
    s.handle_window_new(500, 20, 300, 200, "", "Two".to_string()).unwrap();
    s.handle_window_close(2);
    assert!(s.window(2).is_none());
    assert!(s.window(1).is_some());
    assert_eq!(s.window_list(), vec![1]);
    let events = read_all(&mut s, 1);
    // window 1 lost the focus when window 2 came, and gains it back
    assert_eq!(events.last().map(|e| (e.code, e.a)), Some((EVENT_FOCUS, 1)));
    assert_eq!(s.handle_window_read(2, &mut [Event::new()]), Err(SchemeError::NoWindow));
    // the next window takes a fresh id, not the closed one
    assert_eq!(s.handle_window_new(10, 20, 30, 20, "", "Three".to_string()), Ok(3));
}

#[test]
fn clipboard_write_then_read() {
    let mut s = scheme();
    assert_eq!(s.handle_clipboard_write(0, 0, b"hello"), Ok(5));
    let mut buf = [0u8; 8];
    assert_eq!(s.handle_clipboard_read(0, 0, &mut buf), Ok(5));
    assert_eq!(&buf[..5], b"hello");
    assert_eq!(&buf[5..], &[0, 0, 0]);
    // a short buffer gets as much as fits
    let mut small = [0u8; 2];
    assert_eq!(s.handle_clipboard_read(0, 0, &mut small), Ok(2));
    assert_eq!(&small, b"he");
    // past the end there is nothing
    assert_eq!(s.handle_clipboard_read(0, 9, &mut buf), Ok(0));
    // a write at an offset replaces what lay from there on
    assert_eq!(s.handle_clipboard_write(0, 3, b"XY"), Ok(2));
    let mut buf = [0u8; 8];
    assert_eq!(s.handle_clipboard_read(0, 0, &mut buf), Ok(5));
    assert_eq!(&buf[..5], b"helXY");
}

#[test]
fn clipboard_read_at_offset_counts_what_lies_past_it() {
    let mut s = scheme();
    s.handle_clipboard_write(0, 0, b"hello").unwrap();
    let mut buf = [0u8; 8];
    assert_eq!(s.handle_clipboard_read(0, 2, &mut buf), Ok(3));
    assert_eq!(&buf[..3], b"hel");
}

#[test]
fn super_key_shows_shortcuts() {
    let mut s = scheme();
    assert_eq!(s.key_event(key(K_SUPER, true)), KeyAction::Nothing);
    assert_eq!(s.popup(), Popup::Shortcuts);
    s.key_event(key(K_SUPER, false));
    assert_eq!(s.popup(), Popup::Nothing);
}

#[test]
fn super_key_through_wire_event() {
    let mut s = scheme();
    let e = key(K_SUPER, true).to_event();
    s.event(e);
    assert_eq!(s.popup(), Popup::Shortcuts);
    let e = key(K_SUPER, false).to_event();
    s.event(e);
    assert_eq!(s.popup(), Popup::Nothing);
}

#[test]
fn volume_key_asks_for_a_change() {
    let mut s = scheme();
    let action = s.key_event(key(K_VOLUME_UP, true));
    assert_eq!(action, KeyAction::Volume { change: Volume::Up, show: true });
    assert_eq!(s.volume_change(Volume::Up, 0), 5);
    s.volume_shown();
    assert_eq!(s.popup(), Popup::Volume);
    assert_eq!(s.volume_value(), 5);
}

#[test]
fn volume_changes() {
    let mut s = scheme();
    assert_eq!(s.volume_change(Volume::Up, 98), 100);
    assert_eq!(s.volume_change(Volume::Down, 3), 0);
    assert_eq!(s.volume_change(Volume::Down, 50), 45);
    // the law: a toggle undoes a toggle
    assert_eq!(s.volume_change(Volume::Toggle, 40), 0);
    assert_eq!(s.volume_change(Volume::Toggle, 0), 40);
}

#[test]
fn maximize_then_restore() {
    let mut s = scheme();
    s.handle_window_new(10, 20, 300, 200, "r", "Hello".to_string()).unwrap();
    assert_eq!(s.handle_window_set_flag(1, 'm', true), Ok(()));
    {
        let w = s.window(1).unwrap();
        assert!(w.restore.is_some());
        assert_eq!((w.x, w.y), (0, 28));
        let last = w.events.back().unwrap();
        // the window area is 1080 less the 48 pixel bar, less the title bar
        assert_eq!((last.code, last.a, last.b), (EVENT_RESIZE, 1920, 1080 - 48 - 28));
    }
    let flags = s.handle_window_properties(1).unwrap().flags;
    assert_eq!(flags, "mr");
    assert_eq!(s.handle_window_set_flag(1, 'm', false), Ok(()));
    let w = s.window(1).unwrap();
    assert!(w.restore.is_none());
    assert_eq!((w.x, w.y), (10, 20));
    let last = w.events.back().unwrap();
    assert_eq!((last.code, last.a, last.b), (EVENT_RESIZE, 300, 200));
}

#[test]
fn flags_are_reported() {
    let mut s = scheme();
    s.handle_window_new(10, 20, 300, 200, "", "Hello".to_string()).unwrap();
    s.handle_window_set_flag(1, 'u', true).unwrap();
    s.handle_window_set_flag(1, 't', true).unwrap();
    s.handle_window_set_flag(1, 'f', true).unwrap();
    let p = s.handle_window_properties(1).unwrap();
    assert_eq!(p.flags, "tuf");
    assert_eq!((p.x, p.y, p.width, p.height), (10, 20, 300, 200));
    assert_eq!(p.title, "Hello");
    s.handle_window_set_flag(1, 't', false).unwrap();
    assert_eq!(s.handle_window_properties(1).unwrap().flags, "uf");
    assert!(matches!(s.handle_window_properties(5), Err(SchemeError::NoWindow)));
}

#[test]
fn position_size_and_title() {
    let mut s = scheme();
    s.handle_window_new(10, 20, 300, 200, "", "Hello".to_string()).unwrap();
    assert_eq!(s.handle_window_position(1, Some(50), None), Ok(()));
    {
        let w = s.window(1).unwrap();
        assert_eq!((w.x, w.y), (50, 20));
    }
    assert_eq!(s.handle_window_resize(1, Some(100), Some(80)), Ok(()));
    {
        let w = s.window(1).unwrap();
        assert_eq!((w.width(), w.height()), (100, 80));
    }
    assert_eq!(s.handle_window_title(1, "New".to_string()), Ok(()));
    assert_eq!(s.window(1).unwrap().title, "New");
    assert_eq!(s.handle_window_position(9, Some(1), Some(1)), Err(SchemeError::NoWindow));
    assert_eq!(s.handle_window_resize(9, Some(1), Some(1)), Err(SchemeError::NoWindow));
    assert_eq!(s.handle_window_title(9, String::new()), Err(SchemeError::NoWindow));
}

#[test]
fn pointer_enters_window() {
    let mut s = scheme();
    s.handle_window_new(10, 20, 300, 200, "", "Hello".to_string()).unwrap();
    read_all(&mut s, 1);
    // 4096 of 65536 across 1920 pixels is 120; 8192 of 65536 down 1080 is 135
    s.event(Event { code: EVENT_MOUSE, a: 4096, b: 8192 });
    let events = read_all(&mut s, 1);
    assert_eq!(events.len(), 2);
    assert_eq!((events[0].code, events[0].a), (EVENT_HOVER, 1));
    assert_eq!((events[1].code, events[1].a, events[1].b), (EVENT_MOUSE, 110, 115));
    // a second move replaces the queued position
    s.event(Event { code: EVENT_MOUSE, a: 4096, b: 8192 });
    s.event(Event { code: EVENT_MOUSE, a: 8192, b: 8192 });
    let events = read_all(&mut s, 1);
    assert_eq!(events.len(), 1);
    assert_eq!((events[0].code, events[0].a, events[0].b), (EVENT_MOUSE, 230, 115));
}

#[test]
fn click_focuses_window() {
    let mut s = scheme();
    s.handle_window_new(10, 20, 300, 200, "", "One".to_string()).unwrap();
    s.handle_window_new(500, 20, 300, 200, "", "Two".to_string()).unwrap();
    s.event(Event { code: EVENT_MOUSE, a: 4096, b: 8192 });
    s.event(Event { code: EVENT_BUTTON, a: 1, b: 0 });
    s.event(Event { code: EVENT_BUTTON, a: 0, b: 0 });
    let mut total = None;
    s.redraw(&mut total);
    assert_eq!(s.windows_back_to_front(), vec![(2, false), (1, true)]);
}

#[test]
fn new_mappings_are_counted() {
    let mut s = scheme();
    s.handle_window_new(10, 20, 30, 20, "", "One".to_string()).unwrap();
    assert_eq!(s.window(1).unwrap().maps, 0);
    let _ = s.handle_window_map(1, true).unwrap();
    let _ = s.handle_window_map(1, true).unwrap();
    let _ = s.handle_window_map(1, false).unwrap();
    assert_eq!(s.window(1).unwrap().maps, 2);
    assert_eq!(s.handle_window_unmap(1), Ok(()));
    assert_eq!(s.window(1).unwrap().maps, 1);
}

#[test]
fn map_and_unmap() {
    let mut s = scheme();
    s.handle_window_new(10, 20, 30, 20, "", "One".to_string()).unwrap();
    {
        let pixels = s.handle_window_map(1, false).unwrap();
        assert!(pixels.len() >= 30 * 20);
        pixels[0] = Color::rgb(1, 2, 3);
    }
    assert_eq!(s.window(1).unwrap().image.data()[0].data, 0xFF010203);
    assert_eq!(s.handle_window_unmap(1), Ok(()));
    assert!(s.handle_window_map(4, false).is_err());
    assert_eq!(s.handle_window_unmap(4), Err(SchemeError::NoWindow));
}

#[test]
fn get_window_mut_changes_the_window() {
    let mut s = scheme();
    s.handle_window_new(10, 20, 30, 20, "", "One".to_string()).unwrap();
    s.get_window_mut(1).unwrap().title = "Changed".to_string();
    assert_eq!(s.window(1).unwrap().title, "Changed");
    assert!(s.get_window_mut(2).is_none());
}

#[test]
fn async_and_mouse_settings() {
    let mut s = scheme();
    s.handle_window_new(10, 20, 30, 20, "", "One".to_string()).unwrap();
    assert_eq!(s.handle_window_async(1, true), Ok(()));
    assert!(s.window(1).unwrap().asynchronous);
    assert_eq!(s.handle_window_mouse_cursor(1, false), Ok(()));
    assert!(!s.window(1).unwrap().mouse_cursor);
    assert_eq!(s.handle_window_mouse_grab(1, true), Ok(()));
    assert!(s.window(1).unwrap().mouse_grab);
    assert_eq!(s.handle_window_mouse_relative(1, true), Ok(()));
    assert!(s.window(1).unwrap().mouse_relative);
    assert_eq!(s.handle_window_async(3, true), Err(SchemeError::NoWindow));
}

#[test]
fn popup_is_centred() {
    let mut s = scheme();
    let r = s.place_popup(Some((200, 100)), false).unwrap();
    assert_eq!((r.left(), r.top(), r.width(), r.height()), (860, 490, 200, 100));
    assert!(s.place_popup(None, false).is_none());
}

#[test]
fn hardware_cursor_follows_pointer() {
    let compositor = Compositor::new(vec![Rect::new(0, 0, 1920, 1080)], true);
    let mut s = OrbitalScheme::new(compositor, Rc::new(config()), 1, vec![(16, 16); 7]);
    s.take_cursor_updates();
    s.event(Event { code: EVENT_MOUSE, a: 4096, b: 8192 });
    let updates = s.take_cursor_updates();
    assert_eq!(updates.len(), 1);
    assert!(matches!(updates[0], CursorUpdate::Move { x: 120, y: 135 }));
}

#[test]
fn commands_of_a_client() {
    let mut s = scheme();
    s.handle_window_new(10, 20, 300, 200, "", "Hello".to_string()).unwrap();
    let cmd = parse_command("P,50,60").unwrap();
    assert!(s.command_fits_exec(1, &cmd));
    assert_eq!(s.handle_command(1, cmd), Ok(()));
    assert_eq!((s.window(1).unwrap().x, s.window(1).unwrap().y), (50, 60));
    assert_eq!(s.handle_command(1, parse_command("F,tu,1").unwrap()), Ok(()));
    assert_eq!(s.handle_window_properties(1).unwrap().flags, "tu");
    assert_eq!(s.handle_command(1, parse_command("S,40,30").unwrap()), Ok(()));
    assert_eq!((s.window(1).unwrap().width(), s.window(1).unwrap().height()), (40, 30));
    assert_eq!(s.handle_command(1, parse_command("T,Renamed").unwrap()), Ok(()));
    assert_eq!(s.window(1).unwrap().title, "Renamed");
    assert_eq!(s.handle_command(1, parse_command("A,1").unwrap()), Ok(()));
    assert!(s.window(1).unwrap().asynchronous);
    // a window that is not there
    assert_eq!(s.handle_command(7, parse_command("A,1").unwrap()), Err(SchemeError::NoWindow));
    assert_eq!(s.handle_command(7, parse_command("F,tu,1").unwrap()), Err(SchemeError::NoWindow));
    // an empty list of flags and a drag by a window that is not hovered do nothing
    assert_eq!(s.handle_command(7, parse_command("F,,1").unwrap()), Ok(()));
    assert_eq!(s.handle_command(7, parse_command("D").unwrap()), Ok(()));
    // numbers out of bounds
    assert!(!s.command_fits_exec(1, &parse_command("P,999999999,0").unwrap()));
    assert!(s.command_fits_exec(1, &parse_command("P,99999999,0").unwrap()));
    assert!(!s.command_fits_exec(1, &parse_command("S,-1,10").unwrap()));
    // a size whose pixels do not fit in i32
    assert!(!s.command_fits_exec(1, &parse_command("S,100000,100000").unwrap()));
    assert!(s.command_fits_exec(1, &parse_command("S,99999,10").unwrap()));
    // a window that is not there takes any size that is not negative
    assert!(s.command_fits_exec(7, &parse_command("S,100000,100000").unwrap()));
    assert!(s.command_fits_exec(1, &parse_command("T,x").unwrap()));
}

#[test]
fn input_events_that_overflow_are_dropped() {
    let mut s = scheme();
    s.handle_window_new(10, 20, 300, 200, "", "Hello".to_string()).unwrap();
    assert_eq!(s.input_event(Event { code: EVENT_MOUSE, a: 4096, b: 8192 }), Some(KeyAction::Nothing));
    assert_eq!(s.window(1).unwrap().events.back().map(|e| (e.code, e.a, e.b)), Some((EVENT_MOUSE, 110, 115)));
    // a position that does not scale to the screen within i32 is dropped
    assert_eq!(s.input_event(Event { code: EVENT_MOUSE, a: i32::MAX as i64, b: 0 }), None);
    // a key goes through
    assert_eq!(s.input_event(key(K_SUPER, true).to_event()), Some(KeyAction::Nothing));
    assert_eq!(s.popup(), Popup::Shortcuts);
}
