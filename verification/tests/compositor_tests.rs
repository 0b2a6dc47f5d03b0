use orbital::compositor::Compositor;
use orbital::rect::Rect;

fn same(r: &Rect, x: i32, y: i32, w: i32, h: i32) -> bool {
    r.left() == x && r.top() == y && r.width() == w && r.height() == h
}

#[test]
fn new_compositor_redraws_every_screen() {
    let mut c = Compositor::new(vec![Rect::new(0, 0, 100, 100), Rect::new(100, 0, 50, 50)], false);
    assert_eq!(c.screen_count(), 2);
    assert!(same(&c.screen_rect(), 0, 0, 100, 100));
    let mut total = None;
    let jobs = c.redraw_windows(&mut total);
    assert_eq!(jobs.len(), 2);
    assert_eq!(jobs[0].0, 0);
    assert!(same(&jobs[0].1, 0, 0, 100, 100));
    assert_eq!(jobs[1].0, 1);
    assert!(same(&jobs[1].1, 100, 0, 50, 50));
    assert!(same(&total.unwrap(), 0, 0, 150, 100));
    // nothing is pending after a redraw
    let mut total = None;
    assert!(c.redraw_windows(&mut total).is_empty());
    assert!(total.is_none());
}

#[test]
fn schedule_merges_overlapping_requests() {
    let mut c = Compositor::new(vec![Rect::new(0, 0, 100, 100)], false);
    let mut total = None;
    c.redraw_windows(&mut total);
    c.schedule(Rect::new(10, 10, 10, 10));
    c.schedule(Rect::new(12, 12, 10, 10));
    c.schedule(Rect::new(80, 80, 5, 5));
    let mut total = None;
    let jobs = c.redraw_windows(&mut total);
    assert_eq!(jobs.len(), 2);
    assert!(same(&jobs[0].1, 10, 10, 12, 12));
    assert!(same(&jobs[1].1, 80, 80, 5, 5));
}

#[test]
fn schedule_off_screen_draws_nothing() {
    let mut c = Compositor::new(vec![Rect::new(0, 0, 100, 100)], false);
    let mut total = None;
    c.redraw_windows(&mut total);
    c.schedule(Rect::new(200, 200, 5, 5));
    let mut total = None;
    assert!(c.redraw_windows(&mut total).is_empty());
    assert!(same(&total.unwrap(), 200, 200, 5, 5));
}

#[test]
fn screen_for_window_overlaps_most() {
    let c = Compositor::new(vec![Rect::new(0, 0, 100, 100), Rect::new(100, 0, 100, 100)], false);
    assert!(same(&c.get_screen_rect_for_window(&Rect::new(90, 0, 50, 10)), 100, 0, 100, 100));
    assert!(same(&c.get_screen_rect_for_window(&Rect::new(60, 0, 50, 10)), 0, 0, 100, 100));
    // overlapping none: the first screen
    assert!(same(&c.get_screen_rect_for_window(&Rect::new(500, 500, 5, 5)), 0, 0, 100, 100));
}

#[test]
fn window_area_leaves_the_bar() {
    let c = Compositor::new(vec![Rect::new(0, 0, 1920, 1080)], false);
    let screen = c.screen_rect();
    let area = c.get_window_rect_from_screen_rect(&screen);
    assert!(same(&area, 0, 0, 1920, 1032));
    let tall = Rect::new(0, 0, 1000, 1600);
    assert!(same(&c.get_window_rect_from_screen_rect(&tall), 0, 0, 1000, 1504));
}

#[test]
fn sync_rects_cut_to_screens() {
    let c = Compositor::new(vec![Rect::new(0, 0, 100, 100), Rect::new(100, 0, 100, 100)], false);
    let jobs = c.sync_rects(&Rect::new(50, 10, 100, 10));
    assert_eq!(jobs.len(), 2);
    assert_eq!(jobs[0].0, 0);
    assert!(same(&jobs[0].1, 50, 10, 50, 10));
    assert_eq!(jobs[1].0, 1);
    assert!(same(&jobs[1].1, 100, 10, 50, 10));
}
