use orbital::color::Color;
use orbital::compositor::Compositor;
use orbital::decoration::Buttons;
use orbital::scheme::OrbitalScheme;
use orbital::config::Config;
use orbital::image::Image;
use orbital::rect::Rect;
use orbital::window::Window;
use std::rc::Rc;

fn config(bar: Color, highlight: Color) -> Rc<Config> {
    let mut c = Config::default();
    c.bar_color = bar.into();
    c.bar_highlight_color = highlight.into();
    Rc::new(c)
}

fn at(d: &[Color], x: usize, y: usize) -> u32 {
    d[y * 100 + x].data
}

#[test]
fn title_bar_with_buttons() {
    let mut w = Window::new(10, 30, 50, 20, 1, config(Color::rgb(1, 2, 3), Color::rgb(4, 5, 6)));
    w.resizable = true;
    let max = Image::from_color(2, 2, Color::rgb(255, 0, 0));
    let close = Image::from_color(2, 2, Color::rgb(0, 255, 0));
    let mut d = vec![Color::rgb(0, 0, 0); 100 * 60];
    w.draw_title(&mut d, 100, 60, 0, 0, &Rect::new(0, 0, 100, 60), true, &max, &close);
    // the bar spans the window width, the title height above the window
    assert_eq!(at(&d, 10, 2), 0xFF040506);
    assert_eq!(at(&d, 59, 29), 0xFF040506);
    assert_eq!(at(&d, 9, 2), 0xFF000000);
    assert_eq!(at(&d, 60, 2), 0xFF000000);
    assert_eq!(at(&d, 10, 1), 0xFF000000);
    assert_eq!(at(&d, 10, 30), 0xFF000000);
    // the maximize button 36 from the right, the close button 18 from it
    assert_eq!(at(&d, 24, 9), 0xFFFF0000);
    assert_eq!(at(&d, 25, 10), 0xFFFF0000);
    assert_eq!(at(&d, 26, 9), 0xFF040506);
    assert_eq!(at(&d, 42, 9), 0xFF00FF00);
    assert_eq!(at(&d, 43, 10), 0xFF00FF00);
}

#[test]
fn title_bar_unfocused_without_buttons() {
    let mut w = Window::new(10, 30, 50, 20, 1, config(Color::rgb(1, 2, 3), Color::rgb(4, 5, 6)));
    w.resizable = false;
    w.unclosable = true;
    let max = Image::from_color(2, 2, Color::rgb(255, 0, 0));
    let close = Image::from_color(2, 2, Color::rgb(0, 255, 0));
    let mut d = vec![Color::rgb(0, 0, 0); 100 * 60];
    w.draw_title(&mut d, 100, 60, 0, 0, &Rect::new(0, 0, 100, 60), false, &max, &close);
    assert_eq!(at(&d, 24, 9), 0xFF010203);
    assert_eq!(at(&d, 42, 9), 0xFF010203);
}

#[test]
fn title_bar_only_inside_the_redrawn_part() {
    let w = Window::new(10, 30, 50, 20, 1, config(Color::rgb(1, 2, 3), Color::rgb(4, 5, 6)));
    let max = Image::from_color(2, 2, Color::rgb(255, 0, 0));
    let close = Image::from_color(2, 2, Color::rgb(0, 255, 0));
    let mut d = vec![Color::rgb(0, 0, 0); 100 * 60];
    w.draw_title(&mut d, 100, 60, 0, 0, &Rect::new(0, 0, 20, 60), true, &max, &close);
    assert_eq!(at(&d, 19, 5), 0xFF040506);
    assert_eq!(at(&d, 20, 5), 0xFF000000);
    // the close button lies outside the redrawn part
    assert_eq!(at(&d, 42, 9), 0xFF000000);
}

#[test]
fn translucent_bar_mixes_with_the_display() {
    let w = Window::new(10, 30, 50, 20, 1, config(Color::rgba(255, 0, 0, 128), Color::rgba(255, 0, 0, 128)));
    let max = Image::new(0, 0);
    let close = Image::new(0, 0);
    let mut d = vec![Color::rgb(0, 0, 0); 100 * 60];
    w.draw_title(&mut d, 100, 60, 0, 0, &Rect::new(0, 0, 100, 60), true, &max, &close);
    assert_eq!(at(&d, 30, 20), 0xFE7F0000);
}

#[test]
fn borderless_window_has_no_title_bar() {
    let mut w = Window::new(10, 30, 50, 20, 1, config(Color::rgb(1, 2, 3), Color::rgb(4, 5, 6)));
    w.borderless = true;
    let max = Image::new(0, 0);
    let close = Image::new(0, 0);
    let mut d = vec![Color::rgb(0, 0, 0); 100 * 60];
    w.draw_title(&mut d, 100, 60, 0, 0, &Rect::new(0, 0, 100, 60), true, &max, &close);
    assert!(d.iter().all(|c| c.data == 0xFF000000));
}

#[test]
fn window_draws_its_pixels() {
    let mut w = Window::new(10, 30, 4, 2, 1, config(Color::rgb(1, 2, 3), Color::rgb(4, 5, 6)));
    for p in w.map().iter_mut() {
        *p = Color::rgb(7, 7, 7);
    }
    let mut d = vec![Color::rgb(0, 0, 0); 100 * 60];
    w.draw(&mut d, 100, 0, 0, &Rect::new(0, 0, 100, 60));
    assert_eq!(at(&d, 10, 30), 0xFF070707);
    assert_eq!(at(&d, 13, 31), 0xFF070707);
    assert_eq!(at(&d, 14, 31), 0xFF000000);
    assert_eq!(at(&d, 10, 32), 0xFF000000);
}

#[test]
fn frame_draws_background_then_windows() {
    let mut c = Config::default();
    c.background_color = Color::rgb(9, 9, 9).into();
    c.bar_highlight_color = Color::rgb(4, 5, 6).into();
    let compositor = Compositor::new(vec![Rect::new(0, 0, 400, 300)], false);
    let mut s = OrbitalScheme::new(compositor, Rc::new(c), 1, vec![(0, 0); 7]);
    s.handle_window_new(10, 40, 50, 20, "", "One".to_string()).unwrap();
    let mut total = None;
    s.redraw(&mut total);
    let buttons = Buttons {
        max: Image::new(0, 0),
        max_unfocused: Image::new(0, 0),
        close: Image::from_color(2, 2, Color::rgb(0, 255, 0)),
        close_unfocused: Image::new(0, 0),
    };
    let mut d = vec![Color::rgb(1, 1, 1); 400 * 300];
    s.draw_frame(&mut d, 400, 300, 0, 0, &Rect::new(0, 0, 400, 300), &buttons);
    let px = |x: usize, y: usize| d[y * 400 + x].data;
    assert_eq!(px(0, 0), 0xFF090909);
    assert_eq!(px(399, 299), 0xFF090909);
    assert_eq!(px(10, 12), 0xFF040506);
    // the close button of the focused window
    assert_eq!(px(42, 19), 0xFF00FF00);
    // the pixels of the window are still zero
    assert_eq!(px(10, 40), 0);
    assert_eq!(px(59, 59), 0);
    assert_eq!(px(60, 40), 0xFF090909);
}
