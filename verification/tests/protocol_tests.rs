use orbital::event::{ButtonEvent, ClipboardAction, ClipboardEvent, Event, FocusEvent, KeyEvent, MouseEvent, MouseRelativeEvent, MoveEvent, QuitEvent, ResizeEvent, TextInputEvent};
use orbital::event::{K_SUPER, K_TAB, K_Q, K_LEFT_SHIFT, K_NUM_5, K_VOLUME_UP, K_F12};
use orbital::protocol::{parse_command, parse_open, OpenRequest, WindowCommand};
use orbital::window_order::{WindowOrder, WindowZOrder};

#[test]
fn scancodes_match_the_client_library() {
    assert_eq!(K_SUPER, orbclient::K_SUPER);
    assert_eq!(K_TAB, orbclient::K_TAB);
    assert_eq!(K_Q, orbclient::K_Q);
    assert_eq!(K_LEFT_SHIFT, orbclient::K_LEFT_SHIFT);
    assert_eq!(K_NUM_5, orbclient::K_NUM_5);
    assert_eq!(K_VOLUME_UP, orbclient::K_VOLUME_UP);
    assert_eq!(K_F12, orbclient::K_F12);
}

#[test]
fn events_in_wire_format() {
    let k = KeyEvent { character: 'a', scancode: 0x1E, pressed: true }.to_event();
    assert_eq!((k.code, k.a, k.b), (orbclient::EVENT_KEY, 'a' as i64, 0x1E + 256));
    let m = MouseEvent { x: -3, y: 7 }.to_event();
    assert_eq!((m.code, m.a, m.b), (orbclient::EVENT_MOUSE, -3, 7));
    let b = ButtonEvent { left: true, middle: false, right: true }.to_event();
    assert_eq!((b.code, b.a, b.b), (orbclient::EVENT_BUTTON, 5, 0));
    let f = FocusEvent { focused: true }.to_event();
    assert_eq!((f.code, f.a), (orbclient::EVENT_FOCUS, 1));
    let mv = MoveEvent { x: 10, y: 20 }.to_event();
    assert_eq!((mv.code, mv.a, mv.b), (orbclient::EVENT_MOVE, 10, 20));
    let rs = ResizeEvent { width: 30, height: 40 }.to_event();
    assert_eq!((rs.code, rs.a, rs.b), (orbclient::EVENT_RESIZE, 30, 40));
    let q = QuitEvent.to_event();
    assert_eq!(q.code, orbclient::EVENT_QUIT);
    let t = TextInputEvent { character: 'z' }.to_event();
    assert_eq!((t.code, t.a), (orbclient::EVENT_TEXT_INPUT, 'z' as i64));
    let r = MouseRelativeEvent { dx: -5, dy: 6 }.to_event();
    assert_eq!((r.code, r.a, r.b), (orbclient::EVENT_MOUSE_RELATIVE, -5, 6));
    let c = ClipboardEvent { kind: ClipboardAction::Paste, size: 12 }.to_event();
    assert_eq!((c.code, c.a, c.b), (orbclient::EVENT_CLIPBOARD, 3, 12));
    let e = Event::new();
    assert_eq!((e.code, e.a, e.b), (0, 0, 0));
}

#[test]
fn key_event_agrees_with_client_library() {
    let ours = KeyEvent { character: 'x', scancode: 0x2D, pressed: false }.to_event();
    let theirs = orbclient::KeyEvent { character: 'x', scancode: 0x2D, pressed: false }.to_event();
    assert_eq!((ours.code, ours.a, ours.b), (theirs.code, theirs.a, theirs.b));
    let ours = ButtonEvent { left: false, middle: true, right: true }.to_event();
    let theirs = orbclient::ButtonEvent { left: false, middle: true, right: true }.to_event();
    assert_eq!((ours.code, ours.a, ours.b), (theirs.code, theirs.a, theirs.b));
}

#[test]
fn parse_simple_commands() {
    assert!(matches!(parse_command("A,1"), Some(WindowCommand::Async(true))));
    assert!(matches!(parse_command("A,0"), Some(WindowCommand::Async(false))));
    assert!(parse_command("A,2").is_none());
    assert!(matches!(parse_command("D,"), Some(WindowCommand::Drag)));
    assert!(matches!(parse_command("D"), Some(WindowCommand::Drag)));
    assert!(matches!(parse_command("M,C,0"), Some(WindowCommand::MouseCursor(false))));
    assert!(matches!(parse_command("M,G,1"), Some(WindowCommand::MouseGrab(true))));
    assert!(matches!(parse_command("M,R,1"), Some(WindowCommand::MouseRelative(true))));
    assert!(parse_command("M,X,1").is_none());
    assert!(parse_command("Z,1").is_none());
    assert!(parse_command("").is_none());
}

#[test]
fn parse_position_and_size() {
    match parse_command("P,10,-20") {
        Some(WindowCommand::Position(x, y)) => assert_eq!((x, y), (Some(10), Some(-20))),
        _ => panic!("not a position"),
    }
    match parse_command("P,abc,5") {
        Some(WindowCommand::Position(x, y)) => assert_eq!((x, y), (None, Some(5))),
        _ => panic!("not a position"),
    }
    match parse_command("S,640,480") {
        Some(WindowCommand::Resize(w, h)) => assert_eq!((w, h), (Some(640), Some(480))),
        _ => panic!("not a size"),
    }
    match parse_command("S,99999999999,1") {
        Some(WindowCommand::Resize(w, h)) => assert_eq!((w, h), (None, Some(1))),
        _ => panic!("not a size"),
    }
}

#[test]
fn parse_flags_and_title() {
    match parse_command("F,mr,1") {
        Some(WindowCommand::SetFlags(f, v)) => {
            assert_eq!(f, vec!['m', 'r']);
            assert!(v);
        }
        _ => panic!("not flags"),
    }
    match parse_command("T,Hello, world") {
        Some(WindowCommand::Title(t)) => assert_eq!(t, "Hello, world"),
        _ => panic!("not a title"),
    }
}

#[test]
fn parse_open_window_path() {
    match parse_open("rt/10/20/300/200/My/Title") {
        OpenRequest::Window { flags, x, y, width, height, title } => {
            assert_eq!(flags, "rt");
            assert_eq!((x, y, width, height), (10, 20, 300, 200));
            assert_eq!(title, "My/Title");
        }
        _ => panic!("not a window"),
    }
    match parse_open("-1/-1/50/60/t") {
        OpenRequest::Window { flags, x, y, width, height, title } => {
            assert_eq!(flags, "");
            assert_eq!((x, y, width, height), (-1, -1, 50, 60));
            assert_eq!(title, "t");
        }
        _ => panic!("not a window"),
    }
    match parse_open("r/x/2") {
        OpenRequest::Window { x, y, width, height, title, .. } => {
            assert_eq!((x, y, width, height), (0, 2, 0, 0));
            assert_eq!(title, "");
        }
        _ => panic!("not a window"),
    }
}

#[test]
fn parse_open_display_size() {
    assert!(matches!(parse_open("99.0"), OpenRequest::DisplaySize(Some(0))));
    assert!(matches!(parse_open("99.12"), OpenRequest::DisplaySize(Some(12))));
    assert!(matches!(parse_open("99.x"), OpenRequest::DisplaySize(None)));
}

#[test]
fn window_order_focus() {
    let mut order = WindowOrder::new();
    assert_eq!(order.focused(), None);
    order.add_window(1, WindowZOrder::Normal);
    order.add_window(2, WindowZOrder::Normal);
    order.add_window(3, WindowZOrder::Back);
    assert_eq!(order.focus_order(), vec![2, 1, 3]);
    assert_eq!(order.focused(), Some(2));
    order.make_focused(1);
    assert_eq!(order.focus_order(), vec![1, 2, 3]);
    order.remove_window(2);
    assert_eq!(order.focus_order(), vec![1, 3]);
    order.remove_window(7);
    assert_eq!(order.focus_order(), vec![1, 3]);
}

#[test]
fn window_order_layers() {
    let mut order = WindowOrder::new();
    order.add_window(1, WindowZOrder::Back);
    order.add_window(2, WindowZOrder::Normal);
    order.add_window(3, WindowZOrder::Front);
    order.add_window(4, WindowZOrder::Normal);
    let z = |id: usize| match id {
        1 => WindowZOrder::Back,
        3 => WindowZOrder::Front,
        _ => WindowZOrder::Normal,
    };
    order.rezbuffer(z);
    // front layer first, then normal windows in focus order, then the back
    assert_eq!(order.iter_front_to_back(), vec![3, 4, 2, 1]);
    assert_eq!(order.iter_back_to_front(), vec![(1, false), (2, false), (4, true), (3, false)]);
}

#[test]
fn window_order_move_focused_after() {
    let mut order = WindowOrder::new();
    order.add_window(3, WindowZOrder::Normal);
    order.add_window(2, WindowZOrder::Normal);
    order.add_window(1, WindowZOrder::Normal);
    assert_eq!(order.focus_order(), vec![1, 2, 3]);
    order.move_focused_after(3);
    assert_eq!(order.focus_order(), vec![2, 3, 1]);
}
