use hyprdusk::pixmap::{
    argb_to_rgba, compare_heights, pixmap_image, preferred_pixmap, HeightOrder, IconPixmap,
};

fn pixmap(width: i32, height: i32) -> IconPixmap {
    let n = (width.max(0) * height.max(0) * 4) as usize;
    IconPixmap { width, height, pixels: (0..n).map(|i| i as u8).collect() }
}

#[test]
fn band_heights_compare_by_size() {
    assert_eq!(compare_heights(20, 24), HeightOrder::Less);
    assert_eq!(compare_heights(24, 20), HeightOrder::Greater);
    assert_eq!(compare_heights(22, 22), HeightOrder::Equal);
}

#[test]
fn band_heights_beat_others() {
    assert_eq!(compare_heights(22, 64), HeightOrder::Greater);
    assert_eq!(compare_heights(22, 16), HeightOrder::Greater);
    assert_eq!(compare_heights(64, 22), HeightOrder::Less);
    assert_eq!(compare_heights(16, 22), HeightOrder::Less);
}

#[test]
fn large_and_small_heights_compare_by_size() {
    assert_eq!(compare_heights(32, 48), HeightOrder::Less);
    assert_eq!(compare_heights(48, 32), HeightOrder::Greater);
    assert_eq!(compare_heights(25, 25), HeightOrder::Equal);
    assert_eq!(compare_heights(16, 8), HeightOrder::Greater);
    assert_eq!(compare_heights(8, 16), HeightOrder::Less);
}

#[test]
fn large_and_small_heights_conflict() {
    assert_eq!(compare_heights(32, 16), HeightOrder::Less);
    assert_eq!(compare_heights(16, 32), HeightOrder::Less);
}

#[test]
fn extreme_heights_do_not_overflow() {
    assert_eq!(compare_heights(i32::MAX, 25), HeightOrder::Greater);
    assert_eq!(compare_heights(i32::MIN, 0), HeightOrder::Less);
}

#[test]
fn band_pixmap_is_preferred() {
    let pixmaps = vec![pixmap(16, 16), pixmap(22, 22), pixmap(48, 48), pixmap(20, 20)];
    assert_eq!(preferred_pixmap(&pixmaps), Some(1));
}

#[test]
fn tallest_pixmap_without_band() {
    let pixmaps = vec![pixmap(32, 32), pixmap(64, 64), pixmap(48, 48)];
    assert_eq!(preferred_pixmap(&pixmaps), Some(1));
    let small = vec![pixmap(8, 8), pixmap(16, 16), pixmap(12, 12)];
    assert_eq!(preferred_pixmap(&small), Some(1));
}

#[test]
fn first_of_equal_heights_is_chosen() {
    let pixmaps = vec![pixmap(10, 24), pixmap(24, 24)];
    assert_eq!(preferred_pixmap(&pixmaps), Some(0));
}

#[test]
fn no_pixmap_no_choice() {
    assert_eq!(preferred_pixmap(&vec![]), None);
}

#[test]
fn argb_becomes_rgba() {
    let p = IconPixmap { width: 2, height: 1, pixels: vec![255, 1, 2, 3, 128, 4, 5, 6] };
    assert_eq!(argb_to_rgba(&p), vec![1, 2, 3, 255, 4, 5, 6, 128]);
}

#[test]
fn argb_conversion_ignores_extra_bytes() {
    let p = IconPixmap { width: 1, height: 1, pixels: vec![9, 8, 7, 6, 5, 4] };
    assert_eq!(argb_to_rgba(&p), vec![8, 7, 6, 9]);
    let empty = IconPixmap { width: 0, height: 5, pixels: vec![] };
    assert!(argb_to_rgba(&empty).is_empty());
}

#[test]
fn image_from_preferred_pixmap() {
    let pixmaps = vec![
        IconPixmap { width: 1, height: 16, pixels: vec![0; 64] },
        IconPixmap { width: 1, height: 1, pixels: vec![0; 4] },
        IconPixmap { width: 1, height: 22, pixels: (0..88).map(|i| i as u8).collect() },
    ];
    let image = pixmap_image(&pixmaps);
    assert_eq!(image.width, 1);
    assert_eq!(image.height, 22);
    assert_eq!(image.rgba.len(), 88);
    assert_eq!(&image.rgba[0..8], &[1, 2, 3, 0, 5, 6, 7, 4]);
}

#[test]
fn image_of_single_pixmap() {
    let pixmaps = vec![IconPixmap { width: 2, height: 1, pixels: vec![255, 10, 20, 30, 0, 40, 50, 60, 99] }];
    let image = pixmap_image(&pixmaps);
    assert_eq!((image.width, image.height), (2, 1));
    assert_eq!(image.rgba, vec![10, 20, 30, 255, 40, 50, 60, 0]);
}
