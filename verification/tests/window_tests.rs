use orbital::color::Color;
use orbital::config::Config;
use orbital::event::Event;
use orbital::window::Window;
use std::rc::Rc;

// a config that can be used to create Windows for testing
fn test_config() -> Config {
    Config {
        cursor: String::default(),
        bottom_left_corner: String::default(),
        bottom_right_corner: String::default(),
        bottom_side: String::default(),
        left_side: String::default(),
        right_side: String::default(),
        window_max: String::default(),
        window_max_unfocused: String::default(),
        window_close: String::default(),
        window_close_unfocused: String::default(),

        background_color: Color::rgba(1, 2, 3, 200).into(),
        bar_color: Color::rgba(1, 2, 3, 200).into(),
        bar_highlight_color: Color::rgba(1, 2, 3, 200).into(),
        text_color: Color::rgba(1, 2, 3, 200).into(),
        text_highlight_color: Color::rgba(1, 2, 3, 200).into(),
    }
}

#[test]
fn read_limited_to_buffer_size() {
    let dummy_config = test_config();
    let mut window = Window::new(0, 0, 100, 100, 1, Rc::new(dummy_config));

    // Add three events to the window's queue of events
    let mut event_1 = Event::new();
    event_1.code = 1;
    window.events.push_back(event_1);
    let mut event_2 = Event::new();
    event_2.code = 2;
    window.events.push_back(event_2);
    let mut event_3 = Event::new();
    event_3.code = 3;
    window.events.push_back(event_3);

    // Our buffer will only have a length of 2
    let mut buf: Vec<Event> = vec![Event::new(), Event::new()];
    assert_eq!(
        buf.as_mut_slice().len(),
        2,
        "Buffer is not of length 2 as expected"
    );

    assert_eq!(
        window.read(buf.as_mut_slice()),
        2,
        "Did not read two events as expected"
    );

    let code = buf[0].code;
    assert_eq!(code, 1);
    let code = buf[1].code;
    assert_eq!(code, 2);
}

#[test]
fn read_limited_to_available_events() {
    let dummy_config = test_config();
    let mut window = Window::new(0, 0, 100, 100, 1, Rc::new(dummy_config));

    let mut event_1 = Event::new();
    event_1.code = 1;
    window.events.push_back(event_1);
    let mut event_2 = Event::new();
    event_2.code = 2;
    window.events.push_back(event_2);

    let mut buf: Vec<Event> = vec![Event::new(), Event::new(), Event::new(), Event::new()];
    assert_eq!(
        buf.as_mut_slice().len(),
        4,
        "Buffer is not of length 4 as expected"
    );

    assert_eq!(
        window.read(buf.as_mut_slice()),
        2,
        "Did not read two events as expected"
    );

    let code = buf[0].code;
    assert_eq!(code, 1);
    let code = buf[1].code;
    assert_eq!(code, 2);
}

#[test]
fn read_empty_queue_returns_zero() {
    let dummy_config = test_config();
    let mut window = Window::new(0, 0, 100, 100, 1, Rc::new(dummy_config));

    let mut buf: Vec<Event> = vec![Event::new(), Event::new()];
    assert_eq!(
        buf.as_mut_slice().len(),
        2,
        "Buffer is not of length 2 as expected"
    );

    assert_eq!(
        window.read(buf.as_mut_slice()),
        0,
        "Did not expect to read any events"
    );
}
