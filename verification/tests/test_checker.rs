use wmonitor::check::algorithms::{
    calc_scope_rect, composite, find_diffs, gen_visual_result, get_sub_image_params, mix,
    rgb_usize_to_rgba, AlgorithmError, Diff, ScopeRect,
};
use wmonitor::common::bitmap::{GrayBitmap, RgbaBitmap};
use wmonitor::common::config::VisualizationConfig;
use wmonitor::common::png::ImagePng;
use wmonitor::common::Position;

fn config() -> VisualizationConfig {
    VisualizationConfig {
        diff_img_opacity_pct: 50,
        normal_color: 0x00FF00,
        abnormal_color: 0xFF0000,
        unmasked_color: 0x0000FF,
        minimum_width: 64,
        minimum_height: 64,
        horizontal_margin: 2,
        vertical_margin: 2,
    }
}

fn solid(width: u32, height: u32, px: [u8; 4]) -> Vec<u8> {
    let mut data = Vec::new();
    for _ in 0..(width * height) {
        data.extend_from_slice(&px);
    }
    data
}

fn set_px(data: &mut Vec<u8>, width: u32, x: u32, y: u32, px: [u8; 4]) {
    let at = 4 * (y * width + x) as usize;
    data[at..at + 4].copy_from_slice(&px);
}

fn rect_at(x: usize, y: usize) -> ScopeRect {
    ScopeRect::new(Position::new(x, y), Position::new(x, y)).unwrap()
}

#[test]
fn algorithms() {
    let mut changed = solid(1000, 1000, [10, 20, 30, 255]);
    let mut expect_bits = vec![0u8; 1000 * 1000];
    for y in 300..308 {
        for x in 500..508 {
            set_px(&mut changed, 1000, x, y, [200, 20, 30, 255]);
            expect_bits[(y * 1000 + x) as usize] = 255;
        }
    }
    let ref_png =
        ImagePng::try_from_rgba(RgbaBitmap::from_raw(1000, 1000, solid(1000, 1000, [10, 20, 30, 255])).unwrap())
            .unwrap();
    let mask_png =
        ImagePng::try_from_gray(GrayBitmap::from_raw(1000, 1000, vec![255; 1000 * 1000]).unwrap()).unwrap();
    let curr_png = ImagePng::try_from_rgba(RgbaBitmap::from_raw(1000, 1000, changed).unwrap()).unwrap();

    let ref_ = ref_png.try_to_rgba().unwrap();
    let mask = mask_png.try_to_gray().unwrap();
    let curr = curr_png.try_to_rgba().unwrap();

    let expect_diff_img = GrayBitmap::from_raw(1000, 1000, expect_bits).unwrap();
    let rec = find_diffs(&ref_, &mask, &curr).unwrap();
    assert_eq!(rec.diff_img, expect_diff_img);
    assert_eq!(rec.diffs.len(), 64);

    let result = gen_visual_result(&ref_, &mask, &curr, &rec, &config()).unwrap();
    assert_eq!(result.dimensions(), (960, 960));
    ImagePng::try_from_rgba(result).unwrap();
}

#[test]
fn one_changed_pixel_in_a_two_by_two_image() {
    let reference = RgbaBitmap::from_raw(2, 2, solid(2, 2, [0, 0, 0, 255])).unwrap();
    let mut changed = solid(2, 2, [0, 0, 0, 255]);
    changed[12] = 9;
    let current = RgbaBitmap::from_raw(2, 2, changed).unwrap();
    let mask = GrayBitmap::from_raw(2, 2, vec![255; 4]).unwrap();

    let rec = find_diffs(&reference, &mask, &current).unwrap();
    assert_eq!(rec.diffs.len(), 1);
    assert_eq!(rec.diffs[0].pos, Position::new(1, 1));
    assert_eq!(rec.diffs[0].ref_px, [0, 0, 0, 255]);
    assert_eq!(rec.diffs[0].curr_px, [9, 0, 0, 255]);
    assert_eq!(rec.diff_img.as_raw(), &vec![0, 0, 0, 255]);
    assert_eq!(rec.diff_img.dimensions(), (2, 2));
    assert_eq!(rec.scope_rect.left_top(), Position::new(1, 1));
    assert_eq!(rec.scope_rect.right_bottom(), Position::new(1, 1));
}

#[test]
fn a_pixel_counts_only_where_the_mask_is_fully_on() {
    let reference = RgbaBitmap::from_raw(3, 1, solid(3, 1, [1, 2, 3, 255])).unwrap();
    let current = RgbaBitmap::from_raw(3, 1, solid(3, 1, [1, 2, 3, 254])).unwrap();
    let mask = GrayBitmap::from_raw(3, 1, vec![255, 0, 254]).unwrap();

    let rec = find_diffs(&reference, &mask, &current).unwrap();
    assert_eq!(rec.diff_img.as_raw(), &vec![255, 0, 0]);
    assert_eq!(
        rec.diffs,
        vec![Diff { pos: Position::new(0, 0), curr_px: [1, 2, 3, 254], ref_px: [1, 2, 3, 255] }]
    );
}

#[test]
fn equal_images_have_no_diffs_and_the_whole_tile_as_scope() {
    let reference = RgbaBitmap::from_raw(2, 3, solid(2, 3, [7, 7, 7, 255])).unwrap();
    let mask = GrayBitmap::from_raw(2, 3, vec![255; 6]).unwrap();

    let rec = find_diffs(&reference, &mask, &reference.clone()).unwrap();
    assert!(rec.diffs.is_empty());
    assert_eq!(rec.diff_img.as_raw(), &vec![0; 6]);
    assert_eq!(rec.scope_rect.left_top(), Position::new(0, 0));
    assert_eq!(rec.scope_rect.right_bottom(), Position::new(1000, 1000));
    assert_eq!(rec.scope_rect, ScopeRect::default());
}

#[test]
fn diffs_are_listed_by_column_then_by_row() {
    let reference = RgbaBitmap::from_raw(3, 3, solid(3, 3, [0, 0, 0, 255])).unwrap();
    let mut changed = solid(3, 3, [0, 0, 0, 255]);
    for (x, y) in [(2, 0), (0, 2), (1, 1), (0, 1), (2, 2)] {
        set_px(&mut changed, 3, x, y, [5, 5, 5, 255]);
    }
    let current = RgbaBitmap::from_raw(3, 3, changed).unwrap();
    let mask = GrayBitmap::from_raw(3, 3, vec![255; 9]).unwrap();

    let rec = find_diffs(&reference, &mask, &current).unwrap();
    let places: Vec<(usize, usize)> = rec.diffs.iter().map(|d| (d.pos.x, d.pos.y)).collect();
    assert_eq!(places, vec![(0, 1), (0, 2), (1, 1), (2, 0), (2, 2)]);
    let mut sorted = rec.diffs.clone();
    sorted.sort();
    assert_eq!(sorted, rec.diffs);
    assert_eq!(rec.diff_img.as_raw(), &vec![0, 0, 255, 255, 255, 0, 255, 0, 255]);
    assert_eq!(rec.scope_rect.left_top(), Position::new(0, 0));
    assert_eq!(rec.scope_rect.right_bottom(), Position::new(2, 2));
    let on = rec.diff_img.as_raw().iter().filter(|b| **b == 255).count();
    assert_eq!(rec.diffs.len(), on);
}

#[test]
fn images_of_different_sizes_are_not_compared() {
    let reference = RgbaBitmap::from_raw(2, 2, solid(2, 2, [0, 0, 0, 255])).unwrap();
    let current = RgbaBitmap::from_raw(2, 1, solid(2, 1, [0, 0, 0, 255])).unwrap();
    let mask = GrayBitmap::from_raw(2, 2, vec![255; 4]).unwrap();
    let small_mask = GrayBitmap::from_raw(1, 2, vec![255; 2]).unwrap();
    assert_eq!(find_diffs(&reference, &mask, &current).unwrap_err(), AlgorithmError::SizeMismatch);
    assert_eq!(
        find_diffs(&reference, &small_mask, &reference.clone()).unwrap_err(),
        AlgorithmError::SizeMismatch
    );
}

#[test]
fn the_picture_is_not_drawn_of_images_of_different_sizes() {
    let reference = RgbaBitmap::from_raw(2, 2, solid(2, 2, [0, 0, 0, 255])).unwrap();
    let mask = GrayBitmap::from_raw(2, 2, vec![255; 4]).unwrap();
    let rec = find_diffs(&reference, &mask, &reference.clone()).unwrap();

    let wide = RgbaBitmap::from_raw(3, 2, solid(3, 2, [0, 0, 0, 255])).unwrap();
    let wide_mask = GrayBitmap::from_raw(3, 2, vec![255; 6]).unwrap();
    let cfg = config();
    assert_eq!(
        gen_visual_result(&reference, &mask, &wide, &rec, &cfg).unwrap_err(),
        AlgorithmError::SizeMismatch
    );
    assert_eq!(
        gen_visual_result(&reference, &wide_mask, &reference.clone(), &rec, &cfg).unwrap_err(),
        AlgorithmError::SizeMismatch
    );
    assert_eq!(
        gen_visual_result(&wide, &wide_mask, &wide.clone(), &rec, &cfg).unwrap_err(),
        AlgorithmError::SizeMismatch
    );
}

#[test]
fn the_picture_is_not_drawn_of_images_smaller_than_the_window() {
    let reference = RgbaBitmap::from_raw(2, 2, solid(2, 2, [0, 0, 0, 255])).unwrap();
    let mask = GrayBitmap::from_raw(2, 2, vec![255; 4]).unwrap();
    let rec = find_diffs(&reference, &mask, &reference.clone()).unwrap();
    assert_eq!(
        gen_visual_result(&reference, &mask, &reference.clone(), &rec, &config()).unwrap_err(),
        AlgorithmError::WindowOutOfImage
    );
}

#[test]
fn the_scope_of_some_diffs_is_their_bounding_box() {
    let d = |x, y| Diff { pos: Position::new(x, y), curr_px: [0; 4], ref_px: [1; 4] };
    let rect = calc_scope_rect(&vec![d(5, 9), d(7, 2), d(6, 4)]);
    assert_eq!(rect.left_top(), Position::new(5, 2));
    assert_eq!(rect.right_bottom(), Position::new(7, 9));
    let single = calc_scope_rect(&vec![d(12, 34)]);
    assert_eq!(single.left_top(), Position::new(12, 34));
    assert_eq!(single.right_bottom(), Position::new(12, 34));
    assert_eq!(calc_scope_rect(&vec![]), ScopeRect::default());
}

#[test]
fn a_scope_rect_needs_its_corners_in_order() {
    assert!(ScopeRect::new(Position::new(3, 3), Position::new(3, 3)).is_some());
    assert!(ScopeRect::new(Position::new(4, 3), Position::new(3, 3)).is_none());
    assert!(ScopeRect::new(Position::new(3, 4), Position::new(3, 3)).is_none());
}

#[test]
fn a_colour_is_read_as_red_green_blue() {
    assert_eq!(rgb_usize_to_rgba(0x123456), [0x12, 0x34, 0x56, 255]);
    assert_eq!(rgb_usize_to_rgba(0), [0, 0, 0, 255]);
    assert_eq!(rgb_usize_to_rgba(0xFFFFFF), [255, 255, 255, 255]);
    assert_eq!(rgb_usize_to_rgba(0xAB_010203), [1, 2, 3, 255]);
}

#[test]
fn colours_are_mixed_in_whole_percents() {
    assert_eq!(mix([200, 100, 50, 255], [0, 0, 255, 255], 50), [100, 50, 152, 254]);
    assert_eq!(mix([200, 100, 50, 255], [0, 0, 255, 255], 0), [200, 100, 50, 255]);
    assert_eq!(mix([200, 100, 50, 255], [0, 0, 255, 255], 100), [0, 0, 255, 255]);
    assert_eq!(mix([199, 1, 3, 255], [7, 9, 11, 255], 33), [135, 2, 5, 254]);
}

#[test]
fn a_pixel_that_is_not_opaque_is_mixed_as_black() {
    assert_eq!(mix([200, 100, 50, 254], [0, 0, 255, 255], 50), [0, 0, 127, 254]);
    assert_eq!(mix([200, 100, 50, 0], [255, 255, 255, 255], 30), [76, 76, 76, 254]);
}

#[test]
fn every_pixel_is_drawn_in_the_colour_of_its_kind() {
    let reference = RgbaBitmap::from_raw(4, 1, solid(4, 1, [200, 100, 50, 255])).unwrap();
    let mask = GrayBitmap::from_raw(4, 1, vec![255, 255, 0, 0]).unwrap();
    let diff = GrayBitmap::from_raw(4, 1, vec![255, 0, 0, 255]).unwrap();
    let out = composite(&reference, &mask, &diff, &config());
    assert_eq!(out.dimensions(), (4, 1));
    assert_eq!(out.get_pixel(0, 0), [227, 50, 25, 254]);
    assert_eq!(out.get_pixel(1, 0), [100, 177, 25, 254]);
    assert_eq!(out.get_pixel(2, 0), [100, 50, 152, 254]);
    assert_eq!(out.get_pixel(3, 0), [227, 50, 25, 254]);
}

#[test]
fn an_unwatched_pixel_is_drawn_alike_whatever_the_tile_holds() {
    let reference = RgbaBitmap::from_raw(1, 1, vec![200, 100, 50, 255]).unwrap();
    let same = reference.clone();
    let other = RgbaBitmap::from_raw(1, 1, vec![1, 2, 3, 255]).unwrap();
    let mask = GrayBitmap::from_raw(1, 1, vec![0]).unwrap();
    let cfg = VisualizationConfig { minimum_width: 1, minimum_height: 1, ..config() };

    let rec_same = find_diffs(&reference, &mask, &same).unwrap();
    let rec_other = find_diffs(&reference, &mask, &other).unwrap();
    assert_eq!(rec_same, rec_other);
    let whole = composite(&reference, &mask, &rec_other.diff_img, &cfg);
    assert_eq!(whole.get_pixel(0, 0), mix([200, 100, 50, 255], [0, 0, 255, 255], 50));
}

#[test]
fn the_window_sits_around_the_changes() {
    let cfg = config();
    assert_eq!(get_sub_image_params(rect_at(500, 500), &cfg), [469, 469, 64, 64]);
    let wide = ScopeRect::new(Position::new(100, 200), Position::new(299, 209)).unwrap();
    assert_eq!(get_sub_image_params(wide, &cfg), [98, 173, 204, 64]);
}

#[test]
fn the_window_never_leaves_the_tile() {
    let cfg = config();
    assert_eq!(get_sub_image_params(rect_at(3, 5), &cfg), [0, 0, 64, 64]);
    assert_eq!(get_sub_image_params(rect_at(990, 999), &cfg), [936, 936, 64, 64]);
    assert_eq!(get_sub_image_params(ScopeRect::default(), &cfg), [0, 0, 1000, 1000]);
    let all = ScopeRect::new(Position::new(0, 0), Position::new(999, 999)).unwrap();
    assert_eq!(get_sub_image_params(all, &cfg), [0, 0, 1000, 1000]);
    let tall = ScopeRect::new(Position::new(400, 0), Position::new(400, 999)).unwrap();
    assert_eq!(get_sub_image_params(tall, &cfg), [369, 0, 64, 1000]);
}

#[test]
fn the_window_is_enlarged_to_about_the_width_of_a_tile() {
    let mut pixels = solid(1000, 1000, [0, 0, 0, 255]);
    set_px(&mut pixels, 1000, 500, 500, [255, 255, 255, 255]);
    let reference = RgbaBitmap::from_raw(1000, 1000, solid(1000, 1000, [0, 0, 0, 255])).unwrap();
    let current = RgbaBitmap::from_raw(1000, 1000, pixels).unwrap();
    let mask = GrayBitmap::from_raw(1000, 1000, vec![255; 1_000_000]).unwrap();
    let cfg = VisualizationConfig { diff_img_opacity_pct: 100, ..config() };

    let rec = find_diffs(&reference, &mask, &current).unwrap();
    let out = gen_visual_result(&reference, &mask, &current, &rec, &cfg).unwrap();
    assert_eq!(out.dimensions(), (960, 960));
    assert_eq!(out.as_raw().len(), 4 * 960 * 960);
    // The changed pixel is pixel (31, 31) of the window, and fifteen times as large.
    assert_eq!(out.get_pixel(0, 0), [0, 255, 0, 255]);
    assert_eq!(out.get_pixel(31 * 15 - 1, 31 * 15), [0, 255, 0, 255]);
    assert_eq!(out.get_pixel(31 * 15, 31 * 15), [255, 0, 0, 255]);
    assert_eq!(out.get_pixel(32 * 15 - 1, 32 * 15 - 1), [255, 0, 0, 255]);
    assert_eq!(out.get_pixel(32 * 15, 32 * 15 - 1), [0, 255, 0, 255]);
    assert_eq!(out.get_pixel(959, 959), [0, 255, 0, 255]);
}

#[test]
fn a_window_of_the_whole_tile_is_not_enlarged() {
    let reference = RgbaBitmap::from_raw(1000, 1000, solid(1000, 1000, [9, 9, 9, 255])).unwrap();
    let mask = GrayBitmap::from_raw(1000, 1000, vec![0; 1_000_000]).unwrap();
    let cfg = config();
    let rec = find_diffs(&reference, &mask, &reference.clone()).unwrap();
    let out = gen_visual_result(&reference, &mask, &reference.clone(), &rec, &cfg).unwrap();
    assert_eq!(out, composite(&reference, &mask, &rec.diff_img, &cfg));
}

#[test]
fn a_part_of_an_image_is_cut_out() {
    let data: Vec<u8> = (0..48).collect();
    let img = RgbaBitmap::from_raw(4, 3, data).unwrap();
    let part = img.crop(1, 1, 2, 2);
    assert_eq!(part.dimensions(), (2, 2));
    assert_eq!(part.as_raw(), &vec![20, 21, 22, 23, 24, 25, 26, 27, 36, 37, 38, 39, 40, 41, 42, 43]);
    assert_eq!(img.crop(0, 0, 4, 3), img);
}

#[test]
fn an_image_is_enlarged_pixel_by_pixel() {
    let img = RgbaBitmap::from_raw(2, 1, vec![1, 2, 3, 255, 4, 5, 6, 255]).unwrap();
    let big = img.resized_nearest(4, 2);
    assert_eq!(big.dimensions(), (4, 2));
    assert_eq!(
        big.into_raw(),
        vec![
            1, 2, 3, 255, 1, 2, 3, 255, 4, 5, 6, 255, 4, 5, 6, 255, 1, 2, 3, 255, 1, 2, 3, 255, 4, 5, 6,
            255, 4, 5, 6, 255
        ]
    );
}

#[test]
fn a_raster_needs_a_buffer_of_its_size() {
    assert!(RgbaBitmap::from_raw(2, 2, vec![0; 16]).is_some());
    assert!(RgbaBitmap::from_raw(2, 2, vec![0; 15]).is_none());
    assert!(RgbaBitmap::from_raw(2, 2, vec![0; 17]).is_none());
    assert!(RgbaBitmap::from_raw(0, 5, vec![]).is_some());
    assert!(GrayBitmap::from_raw(2, 2, vec![0; 4]).is_some());
    assert!(GrayBitmap::from_raw(2, 2, vec![0; 16]).is_none());
    let gray = GrayBitmap::from_raw(2, 2, vec![1, 2, 3, 4]).unwrap();
    assert_eq!(gray.get_luma(1, 0), 2);
    assert_eq!(gray.get_luma(0, 1), 3);
    assert_eq!((gray.width(), gray.height()), (2, 2));
    assert_eq!(gray.clone().into_raw(), vec![1, 2, 3, 4]);
}
