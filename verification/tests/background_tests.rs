use orbital::background::{cache_file_name, cached_background, cache_key_exec, cache_name_of_hash, rgba_bytes};
use orbital::color::Color;
use orbital::image::scale_image;

#[test]
fn cache_key_format() {
    assert_eq!(cache_key_exec("/ui/bg.png", 1700000000, 1920, 1080), "/ui/bg.png:1700000000:1920x1080");
    assert_eq!(cache_key_exec("", 0, 0, 0), ":0:0x0");
}

#[test]
fn cache_name_is_hex() {
    assert_eq!(cache_name_of_hash(0), "0.bmp");
    assert_eq!(cache_name_of_hash(0x1f), "1f.bmp");
    assert_eq!(cache_name_of_hash(u64::MAX), "ffffffffffffffff.bmp");
}

#[test]
fn cache_name_hashes_the_key() {
    let key = "/ui/bg.png:1700000000:1920x1080";
    let want = format!("{:x}.bmp", xxhash_rust::const_xxh3::xxh3_64(key.as_bytes()));
    assert_eq!(cache_file_name("/ui/bg.png", 1700000000, 1920, 1080), want);
    assert_ne!(cache_file_name("/ui/bg.png", 1700000000, 1920, 1080), cache_file_name("/ui/bg.png", 1700000001, 1920, 1080));
}

#[test]
fn cache_path_and_hash() {
    let hash = xxhash_rust::const_xxh3::xxh3_64(b"/ui/bg.png:1700000000:1920x1080");
    let (path, h) = cached_background("/ui/bg.png", 1700000000, 1920, 1080);
    assert_eq!(h, hash);
    assert_eq!(path, format!("/var/cache/backgrounds/{:x}.bmp", hash));
}

#[test]
fn cached_bytes_are_red_green_blue_alpha() {
    let data = [Color::rgba(1, 2, 3, 4), Color::rgb(250, 128, 0)];
    assert_eq!(rgba_bytes(&data), vec![1, 2, 3, 4, 250, 128, 0, 255]);
    assert_eq!(rgba_bytes(&[]), Vec::<u8>::new());
}

#[test]
fn images_scale_by_whole_numbers() {
    let a = Color::rgb(1, 0, 0);
    let b = Color::rgb(0, 2, 0);
    let c = Color::rgb(0, 0, 3);
    let d = Color::rgb(4, 4, 4);
    let img = scale_image(2, 2, vec![a, b, c, d], 2).unwrap();
    assert_eq!((img.width(), img.height()), (4, 4));
    let got: Vec<u32> = img.data().iter().map(|p| p.data).collect();
    let want: Vec<u32> = [a, a, b, b, a, a, b, b, c, c, d, d, c, c, d, d].iter().map(|p| p.data).collect();
    assert_eq!(got, want);
    let same = scale_image(2, 1, vec![a, b], 1).unwrap();
    assert_eq!((same.width(), same.height(), same.data().len()), (2, 1, 2));
    assert!(scale_image(2, 1, vec![a, b], 0).is_none());
    let empty = scale_image(0, 3, vec![], 3).unwrap();
    assert_eq!((empty.width(), empty.height(), empty.data().len()), (0, 9, 0));
}
