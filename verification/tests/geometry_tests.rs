use orbital::color::Color;
use orbital::config::{Config, ConfigColor};
use orbital::image::{blend_color, Image};
use orbital::rect::Rect;

fn same(r: Rect, x: i32, y: i32, w: i32, h: i32) -> bool {
    r.left() == x && r.top() == y && r.width() == w && r.height() == h
}

#[test]
fn rect_edges_and_area() {
    let r = Rect::new(10, 20, 30, 40);
    assert_eq!(r.left(), 10);
    assert_eq!(r.right(), 40);
    assert_eq!(r.top(), 20);
    assert_eq!(r.bottom(), 60);
    assert_eq!(r.area(), 1200);
    assert!(!r.is_empty());
    assert!(Rect::new(5, 5, 0, 7).is_empty());
    assert!(Rect::new(5, 5, 7, 0).is_empty());
}

#[test]
fn rect_contains_is_inclusive() {
    let r = Rect::new(0, 0, 10, 10);
    assert!(r.contains(0, 0));
    assert!(r.contains(10, 10));
    assert!(!r.contains(11, 5));
    assert!(!r.contains(-1, 5));
}

#[test]
fn rect_intersection() {
    let a = Rect::new(0, 0, 10, 10);
    let b = Rect::new(5, 6, 10, 10);
    assert!(same(a.intersection(&b), 5, 6, 5, 4));
    // the law: intersection is commutative
    assert!(same(b.intersection(&a), 5, 6, 5, 4));
    // apart: the empty rectangle at the origin
    let c = Rect::new(20, 20, 5, 5);
    assert!(same(a.intersection(&c), 0, 0, 0, 0));
    // touching edges give an empty rectangle on the edge
    let d = Rect::new(10, 0, 5, 5);
    assert!(same(a.intersection(&d), 10, 0, 0, 5));
    // the law: a rectangle meets itself in itself
    assert!(same(a.intersection(&a), 0, 0, 10, 10));
}

#[test]
fn rect_container_and_offset() {
    let a = Rect::new(0, 0, 10, 10);
    let b = Rect::new(20, -5, 5, 5);
    assert!(same(a.container(&b), 0, -5, 25, 15));
    assert!(same(a.offset(3, -4), 3, -4, 10, 10));
    // the law: an offset is undone by the opposite offset
    assert!(same(a.offset(3, -4).offset(-3, 4), 0, 0, 10, 10));
}

#[test]
fn rect_default_is_empty_at_origin() {
    let r = Rect::default();
    assert!(same(r, 0, 0, 0, 0));
    assert!(r.is_empty());
}

#[test]
fn color_channels() {
    let c = Color::rgba(1, 2, 3, 4);
    assert_eq!(c.data, 0x04010203);
    assert_eq!((c.r(), c.g(), c.b(), c.a()), (1, 2, 3, 4));
    let o = Color::rgb(10, 20, 30);
    assert_eq!(o.data, 0xFF0A141E);
    assert_eq!(o.a(), 255);
}

#[test]
fn config_color_round_trip() {
    let c = Color::rgba(9, 8, 7, 6);
    let cc: ConfigColor = c.into();
    let back: Color = cc.into();
    assert_eq!(back.data, c.data);
}

#[test]
fn config_defaults() {
    let c = Config::default();
    let bg: Color = c.background_color.into();
    let bar: Color = c.bar_color.into();
    let hi: Color = c.bar_highlight_color.into();
    let text: Color = c.text_color.into();
    assert_eq!(bg.data, 0xFF000000);
    assert_eq!(bar.data, Color::rgba(47, 52, 63, 224).data);
    assert_eq!(hi.data, Color::rgba(80, 86, 102, 224).data);
    assert_eq!(text.data, Color::rgb(204, 210, 224).data);
    assert!(c.cursor.is_empty());
    let parsed = Config::from_parsed(None);
    let pbg: Color = parsed.background_color.into();
    assert_eq!(pbg.data, 0xFF000000);
}

#[test]
fn blend_mixes_by_alpha() {
    let old = Color::rgb(0, 0, 0);
    // opaque replaces
    assert_eq!(blend_color(old, Color::rgb(1, 2, 3)).data, 0xFF010203);
    // transparent keeps
    assert_eq!(blend_color(Color::rgb(5, 6, 7), Color::rgba(1, 2, 3, 0)).data, 0xFF050607);
    // half: 200 * 128 / 256 = 100, and the alpha byte is zero
    let mixed = blend_color(old, Color::rgba(200, 100, 50, 128));
    assert_eq!(mixed.data, 0x00643219);
    // both sides contribute, each rounded down
    let both = blend_color(Color::rgb(100, 100, 100), Color::rgba(200, 0, 0, 128));
    // 100 * 127 / 256 = 49, 200 * 128 / 256 = 100
    assert_eq!(both.data, ((49 + 100) << 16) | (49 << 8) | 49);
}

#[test]
fn image_blit_copies_region() {
    let mut dst = Image::from_color(4, 3, Color::rgb(0, 0, 0));
    let src = Image::from_color(2, 2, Color::rgb(9, 9, 9));
    let roi = src.roi(&Rect::new(0, 0, 2, 2));
    dst.blit_roi(&Rect::new(1, 1, 2, 2), &roi);
    let d = dst.data();
    assert_eq!(d.len(), 12);
    for y in 0..3 {
        for x in 0..4 {
            let inside = (1..3).contains(&x) && (1..3).contains(&y);
            let want = if inside { 0xFF090909 } else { 0xFF000000 };
            assert_eq!(d[y * 4 + x].data, want, "pixel {},{}", x, y);
        }
    }
    assert_eq!(dst.width(), 4);
    assert_eq!(dst.height(), 3);
}

#[test]
fn image_blend_lays_over() {
    let mut dst = Image::from_color(2, 1, Color::rgb(0, 0, 0));
    let src = Image::from_color(1, 1, Color::rgba(200, 100, 50, 128));
    let roi = src.roi(&Rect::new(0, 0, 1, 1));
    dst.blend_roi(&Rect::new(1, 0, 1, 1), &roi);
    assert_eq!(dst.data()[0].data, 0xFF000000);
    assert_eq!(dst.data()[1].data, 0x00643219);
}
