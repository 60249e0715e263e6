use p_hash_rust::fingerprint;
use p_hash_rust::imagehash::mean_threshold;
use p_hash_rust::imagehash::AverageHash;
use p_hash_rust::imagehash::HashMethod;
use p_hash_rust::raster::Image;

fn gray(width: u32, height: u32, shade: impl Fn(u32, u32) -> u8) -> Image {
    let mut data = Vec::new();
    for y in 0..height {
        for x in 0..width {
            let v = shade(x, y);
            data.extend_from_slice(&[v, v, v, 255]);
        }
    }
    Image::new(width, height, data).expect("four bytes per pixel")
}

fn set_bits(h: &fingerprint::Hash) -> usize {
    h.bits().iter().filter(|bit| **bit).count()
}

#[test]
fn default_grid_is_eight_by_eight() {
    assert_eq!(AverageHash::new().img_size(), (8, 8));
    assert_eq!(AverageHash::default().img_size(), (8, 8));
}

#[test]
fn with_img_size_replaces_the_grid() {
    assert_eq!(AverageHash::new().with_img_size(16, 4).img_size(), (16, 4));
    assert_eq!(AverageHash::new().with_img_size(8, 8), AverageHash::default());
}

#[test]
fn with_hash_size_sets_the_bit_layout() {
    assert_eq!(AverageHash::new().with_hash_size(4, 2).img_size(), (4, 2));
    let img = gray(9, 9, |x, y| (x * 20 + y) as u8);
    assert_eq!(AverageHash::new().with_hash_size(4, 2).hash(img).len(), 8);
}

#[test]
fn hash_is_the_mean_threshold_of_the_gray_grid() {
    let img = gray(20, 10, |x, y| ((x * 13 + y * 29) % 256) as u8);
    let method = AverageHash::new().with_img_size(5, 4);
    let luma = img.resize_exact(5, 4).to_luma8();
    assert_eq!(method.hash(img).bits(), mean_threshold(&luma).bits());
}

#[test]
fn uniform_gray_image_has_no_set_bit() {
    let img = gray(8, 8, |_, _| 128);
    let method = AverageHash::new();
    assert!(method.can_hash(&img));
    let h = method.hash(img);
    assert_eq!(h.len(), 64);
    assert_eq!(h.bits(), vec![false; 64]);
    assert_eq!(h.to_hex(), "0000000000000000");
}

#[test]
fn black_left_white_right_sets_the_left_half_of_each_row() {
    let img = gray(8, 8, |x, _| if x < 4 { 0 } else { 255 });
    let method = AverageHash::new();
    assert!(method.can_hash(&img));
    assert_eq!(method.hash(img.clone()).to_bytes(), vec![0xf0u8; 8]);
    assert_eq!(method.hash(img).to_hex(), "f0f0f0f0f0f0f0f0");
}

#[test]
fn black_top_white_bottom_sets_the_first_four_rows() {
    let img = gray(8, 8, |_, y| if y < 4 { 0 } else { 255 });
    assert_eq!(AverageHash::new().hash(img).to_hex(), "ffffffff00000000");
}

#[test]
fn fingerprint_has_one_bit_per_grid_pixel() {
    let img = gray(20, 10, |x, y| ((x * 13 + y * 29) % 256) as u8);
    for (w, h) in [(8usize, 8usize), (4, 3), (1, 1), (16, 2), (3, 11), (20, 10)] {
        let method = AverageHash::new().with_img_size(w, h);
        assert!(method.can_hash(&img));
        let hash = method.hash(img.clone());
        assert_eq!(hash.len(), w * h);
        assert_eq!(hash.to_hex().len(), 2 * ((w * h + 7) / 8));
    }
}

#[test]
fn larger_image_is_sampled_down_to_the_grid() {
    let img = gray(16, 16, |x, _| if x < 8 { 0 } else { 255 });
    let h = AverageHash::new().hash(img);
    assert_eq!(h.len(), 64);
    assert_eq!(h.to_hex(), "f0f0f0f0f0f0f0f0");
}

#[test]
fn empty_grid_gives_empty_fingerprint() {
    let img = gray(8, 8, |x, _| (x * 30) as u8);
    let method = AverageHash::new().with_img_size(0, 5);
    assert!(method.can_hash(&img));
    let h = method.hash(img);
    assert_eq!(h.len(), 0);
    assert_eq!(h.to_hex(), "");
}

#[test]
fn empty_image_gives_a_fingerprint_without_set_bits() {
    let img = Image::new(0, 0, Vec::new()).expect("no pixels");
    let h = AverageHash::new().hash(img);
    assert_eq!(h.bits(), vec![false; 64]);
}

#[test]
fn set_bits_stay_below_the_bit_count() {
    let images = [
        gray(8, 8, |x, y| (x * 8 + y) as u8),
        gray(8, 8, |x, y| if x == 0 && y == 0 { 255 } else { 0 }),
        gray(8, 8, |x, y| if x == 0 && y == 0 { 0 } else { 255 }),
        gray(8, 8, |_, _| 0),
        gray(8, 8, |_, _| 255),
        gray(31, 17, |x, y| ((x * x + 7 * y) % 251) as u8),
    ];
    for img in images {
        let h = AverageHash::new().hash(img);
        assert_eq!(h.len(), 64);
        assert!(set_bits(&h) < 64);
    }
}

#[test]
fn one_bright_pixel_leaves_the_others_below_the_mean() {
    let img = gray(8, 8, |x, y| if x == 3 && y == 2 { 255 } else { 0 });
    let h = AverageHash::new().hash(img);
    let mut expected = vec![true; 64];
    expected[2 * 8 + 3] = false;
    assert_eq!(h.bits(), expected);
    assert_eq!(set_bits(&h), 63);
}

#[test]
fn hashing_twice_gives_the_same_fingerprint() {
    let img = gray(23, 19, |x, y| ((x * 37 + y * 101 + x * y) % 256) as u8);
    let method = AverageHash::new();
    let first = method.hash(img.clone());
    let second = method.hash(img.clone());
    assert_eq!(first.bits(), second.bits());
    assert_eq!(first.to_hex(), method.hash(img).to_hex());
    assert_eq!(second.to_hex().len(), 16);
}

#[test]
fn can_hash_stops_at_the_resize_limit() {
    let img = gray(2, 2, |_, _| 7);
    assert!(AverageHash::new().with_img_size(65_535, 1).can_hash(&img));
    assert!(!AverageHash::new().with_img_size(65_536, 1).can_hash(&img));
    assert!(!AverageHash::new().with_img_size(134_217_735, 1).can_hash(&img));
    let wide = Image::new(65_536, 1, vec![0; 4 * 65_536]).expect("four bytes per pixel");
    assert!(!AverageHash::new().can_hash(&wide));
}

#[test]
fn can_hash_refuses_a_grid_too_large_to_allocate() {
    let img = gray(2, 2, |_, _| 7);
    assert!(!AverageHash::new().with_img_size(usize::MAX, 1).can_hash(&img));
    assert!(!AverageHash::new().with_img_size(u32::MAX as usize, u32::MAX as usize).can_hash(&img));
    assert!(AverageHash::new().with_img_size(32, 32).can_hash(&img));
}

#[test]
fn mean_threshold_compares_each_value_with_the_mean() {
    assert_eq!(mean_threshold(&vec![0, 255]).bits(), vec![true, false]);
    assert_eq!(mean_threshold(&vec![10, 20, 30]).bits(), vec![true, false, false]);
    assert_eq!(mean_threshold(&vec![1, 1, 1, 2]).bits(), vec![true, true, true, false]);
    assert_eq!(mean_threshold(&vec![200, 100, 0, 100]).bits(), vec![false, false, true, false]);
}

#[test]
fn mean_threshold_value_equal_to_the_mean_is_not_set() {
    assert_eq!(mean_threshold(&vec![128; 64]).bits(), vec![false; 64]);
    assert_eq!(mean_threshold(&vec![0, 2, 1]).bits(), vec![true, false, false]);
    assert_eq!(mean_threshold(&vec![9]).bits(), vec![false]);
}

#[test]
fn mean_threshold_of_nothing_is_empty() {
    assert_eq!(mean_threshold(&Vec::new()).len(), 0);
}

#[test]
fn mean_threshold_uses_the_exact_mean() {
    // The mean is 127.5: 127 lies below it, 128 does not.
    assert_eq!(mean_threshold(&vec![127, 128]).bits(), vec![true, false]);
    // The mean is 1/3: only the zeros lie below it.
    assert_eq!(mean_threshold(&vec![0, 0, 1]).bits(), vec![true, true, false]);
}
