use img_utils::bands::{combine_processed_halves, split_image, stitch_bands};
use img_utils::buffer::{
    buffer_to_image, create_buffer, image_to_buffer, image_to_shared_memory, shared_memory_to_image,
    SizeMismatch,
};
use img_utils::raster::Raster;
use img_utils::worker::{process_region, region_size, Filter};

fn numbered(width: u32, height: u32) -> Raster {
    let n = (width * height * 3) as usize;
    let data: Vec<u8> = (0..n).map(|i| (i % 251) as u8).collect();
    Raster::from_raw(width, height, data).unwrap()
}

#[test]
fn buffer_round_trip() {
    let bytes: Vec<u8> = (0..24).collect();
    let img = shared_memory_to_image(&bytes, 2, 4).unwrap();
    assert_eq!(img.width(), 2);
    assert_eq!(img.height(), 4);
    let mut region = create_buffer(24);
    assert_eq!(image_to_shared_memory(&img, &mut region), Ok(()));
    assert_eq!(region, bytes);
    let again = buffer_to_image(&region, 2, 4);
    let mut out = vec![9u8; 24];
    image_to_buffer(&again, &mut out);
    assert_eq!(out, bytes);
}

#[test]
fn buffer_size_mismatch() {
    let bytes = vec![1u8; 23];
    assert_eq!(
        shared_memory_to_image(&bytes, 2, 4).err(),
        Some(SizeMismatch { expected: 24, actual: 23 })
    );
    let img = numbered(2, 2);
    let mut region = vec![7u8; 13];
    assert_eq!(
        image_to_shared_memory(&img, &mut region),
        Err(SizeMismatch { expected: 12, actual: 13 })
    );
    assert_eq!(region, vec![7u8; 13]);
}

#[test]
fn create_buffer_is_zeroed() {
    assert_eq!(create_buffer(5), vec![0u8; 5]);
    assert!(create_buffer(0).is_empty());
}

#[test]
fn raster_from_raw_checks_length() {
    assert!(Raster::from_raw(2, 2, vec![0; 11]).is_none());
    assert!(Raster::from_raw(2, 2, vec![0; 12]).is_some());
    let img = Raster::new(3, 2);
    assert_eq!(img.as_raw(), &[0u8; 18][..]);
}

#[test]
fn region_sizes() {
    assert_eq!(region_size(2, 4), Some(24));
    assert_eq!(region_size(0, 7), Some(0));
    assert_eq!(region_size(u32::MAX, u32::MAX), None);
}

#[test]
fn process_region_refuses_wrong_length() {
    let mut region = vec![5u8; 10];
    assert_eq!(
        process_region(&mut region, 2, 2, Filter::Blur),
        Err(SizeMismatch { expected: 12, actual: 10 })
    );
    assert_eq!(region, vec![5u8; 10]);
}

#[test]
fn process_region_smooths_in_place() {
    let mut region = vec![0u8, 0, 0, 30, 60, 90];
    assert_eq!(process_region(&mut region, 2, 1, Filter::Blur), Ok(()));
    assert_eq!(region, vec![15u8, 30, 45, 15, 30, 45]);
}

fn split_and_stitch(width: u32, height: u32) {
    let img = numbered(width, height);
    let half = height / 2;
    let (top, bottom) = split_image(&img, half);
    assert_eq!(top.height(), half);
    assert_eq!(bottom.height(), height - half);
    assert_eq!(top.width(), width);
    let back = stitch_bands(&top, &bottom);
    assert_eq!(back.width(), width);
    assert_eq!(back.height(), height);
    assert_eq!(back.as_raw(), img.as_raw());
}

#[test]
fn split_stitch_even_height() {
    split_and_stitch(3, 4);
}

#[test]
fn split_stitch_odd_height() {
    split_and_stitch(2, 5);
    let img = numbered(2, 5);
    let (top, bottom) = split_image(&img, 2);
    assert_eq!(top.as_raw(), &img.as_raw()[..12]);
    assert_eq!(bottom.as_raw(), &img.as_raw()[12..]);
}

#[test]
fn split_stitch_tiny_heights() {
    split_and_stitch(3, 0);
    split_and_stitch(3, 1);
}

#[test]
fn combine_halves_from_regions() {
    let img = numbered(2, 3);
    let (top, bottom) = split_image(&img, 1);
    let combined = combine_processed_halves(top.as_raw(), bottom.as_raw(), 2, 3, 1).unwrap();
    assert_eq!(combined.as_raw(), img.as_raw());
    assert_eq!(combined.height(), 3);
    assert_eq!(
        combine_processed_halves(&[0u8; 5], bottom.as_raw(), 2, 3, 1).err(),
        Some(SizeMismatch { expected: 6, actual: 5 })
    );
    assert_eq!(
        combine_processed_halves(top.as_raw(), &[0u8; 11], 2, 3, 1).err(),
        Some(SizeMismatch { expected: 12, actual: 11 })
    );
}
