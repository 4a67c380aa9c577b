use img_utils::filters::{apply_blur, apply_edge_detection, clamped_rounded_root, edge_channel, smoothed_channel};
use img_utils::raster::Raster;
use img_utils::worker::{apply_filter, process_region, Filter};

fn raster(width: u32, height: u32, data: Vec<u8>) -> Raster {
    Raster::from_raw(width, height, data).expect("length fits the dimensions")
}

fn uniform(width: u32, height: u32, px: [u8; 3]) -> Raster {
    let mut data = Vec::new();
    for _ in 0..(width * height) {
        data.extend_from_slice(&px);
    }
    raster(width, height, data)
}

/// A raster whose red channel holds `reds` and whose other channels are zero.
fn reds(width: u32, height: u32, reds: &[u8]) -> Raster {
    let mut data = Vec::new();
    for &r in reds {
        data.extend_from_slice(&[r, 0, 0]);
    }
    raster(width, height, data)
}

fn red_channel(img: &Raster) -> Vec<u8> {
    img.as_raw().chunks(3).map(|p| p[0]).collect()
}

#[test]
fn solid_red_smoothing_stays_red() {
    let mut img = uniform(4, 4, [255, 0, 0]);
    apply_filter(&mut img, Filter::Blur);
    assert_eq!(img.width(), 4);
    assert_eq!(img.height(), 4);
    assert_eq!(img.as_raw(), uniform(4, 4, [255, 0, 0]).as_raw());
}

#[test]
fn uniform_smoothing_is_identity() {
    let mut img = uniform(5, 3, [12, 200, 77]);
    apply_blur(&mut img);
    assert_eq!(img.as_raw(), uniform(5, 3, [12, 200, 77]).as_raw());
}

#[test]
fn smoothing_windows_by_position() {
    let img = reds(3, 3, &[0, 10, 20, 30, 40, 50, 60, 70, 80]);
    // corner: four samples
    assert_eq!(smoothed_channel(&img, 0, 0, 0), 20);
    assert_eq!(smoothed_channel(&img, 2, 2, 0), 60);
    // border: six samples
    assert_eq!(smoothed_channel(&img, 1, 0, 0), 25);
    assert_eq!(smoothed_channel(&img, 0, 1, 0), 35);
    // interior: nine samples
    assert_eq!(smoothed_channel(&img, 1, 1, 0), 40);
    let mut whole = img;
    apply_blur(&mut whole);
    assert_eq!(red_channel(&whole), vec![20, 25, 30, 35, 40, 45, 50, 55, 60]);
    assert_eq!(whole.width(), 3);
    assert_eq!(whole.height(), 3);
}

#[test]
fn smoothing_truncates_the_mean() {
    let mut img = reds(2, 1, &[1, 2]);
    apply_blur(&mut img);
    assert_eq!(red_channel(&img), vec![1, 1]);
}

#[test]
fn smoothing_empty_raster() {
    let mut img = raster(0, 0, Vec::new());
    apply_blur(&mut img);
    assert_eq!(img.width(), 0);
    assert_eq!(img.height(), 0);
    assert!(img.as_raw().is_empty());
}

#[test]
fn rounded_root_values() {
    assert_eq!(clamped_rounded_root(0), 0);
    assert_eq!(clamped_rounded_root(1), 1);
    assert_eq!(clamped_rounded_root(2), 1);
    assert_eq!(clamped_rounded_root(3), 2);
    assert_eq!(clamped_rounded_root(6), 2);
    assert_eq!(clamped_rounded_root(7), 3);
    assert_eq!(clamped_rounded_root(64770), 254);
    assert_eq!(clamped_rounded_root(64771), 255);
    assert_eq!(clamped_rounded_root(1_000_000), 255);
}

#[test]
fn edge_magnitude_rounds() {
    // gx = 2, gy = 2 at the top-left pixel: sqrt(8) = 2.83 rounds to 3.
    let img = reds(2, 2, &[0, 1, 1, 1]);
    assert_eq!(edge_channel(&img, 0, 0, 0), 3);
}

#[test]
fn edge_gradient_on_a_row() {
    let mut img = reds(3, 1, &[0, 100, 200]);
    apply_edge_detection(&mut img);
    assert_eq!(red_channel(&img), vec![100, 200, 100]);
    assert_eq!(img.as_raw()[1], 0);
    assert_eq!(img.as_raw()[2], 0);
}

#[test]
fn edges_of_black_raster_are_black() {
    let mut img = uniform(4, 3, [0, 0, 0]);
    apply_edge_detection(&mut img);
    assert_eq!(img.width(), 4);
    assert_eq!(img.height(), 3);
    assert!(img.as_raw().iter().all(|&b| b == 0));
}

#[test]
fn edges_of_single_pixel_are_black() {
    let mut img = uniform(1, 1, [90, 180, 255]);
    apply_edge_detection(&mut img);
    assert_eq!(img.as_raw(), &[0, 0, 0]);
}

#[test]
fn edges_of_uniform_raster_interior_black_border_not() {
    let mut img = uniform(3, 3, [50, 50, 50]);
    apply_edge_detection(&mut img);
    let raw = img.as_raw();
    // centre pixel
    assert_eq!(&raw[12..15], &[0, 0, 0]);
    // left middle pixel: gx = 3 * 50, gy = 0
    assert_eq!(&raw[9..12], &[150, 150, 150]);
}

#[test]
fn two_tone_region_edge_detection() {
    // 2 wide, 4 high: top two rows white, bottom two rows black.
    let mut region = Vec::new();
    for row in 0..4 {
        let v = if row < 2 { 255 } else { 0 };
        for _ in 0..2 {
            region.extend_from_slice(&[v, v, v]);
        }
    }
    assert_eq!(process_region(&mut region, 2, 4, Filter::EdgeDetection), Ok(()));
    let rows: Vec<&[u8]> = region.chunks(6).collect();
    // the rows on either side of the boundary have a non-zero gradient
    assert!(rows[1].iter().all(|&b| b == 255));
    assert!(rows[2].iter().all(|&b| b == 255));
    // the black row away from the boundary has none
    assert!(rows[3].iter().all(|&b| b == 0));
    // the white top row sits on the raster's border, where the cut-off window
    // gives a gradient as well
    assert!(rows[0].iter().all(|&b| b == 255));
}
