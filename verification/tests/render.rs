use hooray::{ConfigError, Image, RenderConfig, RowOrder};

#[test]
fn a_sound_configuration_keeps_its_values() {
    let config = RenderConfig::new(600, 400, 100, 50, Some(42)).unwrap();
    assert_eq!(config.width(), 600);
    assert_eq!(config.height(), 400);
    assert_eq!(config.samples_per_pixel(), 100);
    assert_eq!(config.max_depth(), 50);
    assert_eq!(config.seed(), Some(42));
    assert_eq!(config.byte_count(), 720000);
    let config = RenderConfig::new(1, 1, 1, 1, None).unwrap();
    assert_eq!(config.seed(), None);
    assert_eq!(config.byte_count(), 3);
}

#[test]
fn each_fault_of_a_configuration_has_its_error() {
    assert_eq!(RenderConfig::new(0, 400, 100, 50, None).err(), Some(ConfigError::Width));
    assert_eq!(RenderConfig::new(600, 0, 100, 50, None).err(), Some(ConfigError::Height));
    assert_eq!(RenderConfig::new(600, 400, 0, 50, None).err(), Some(ConfigError::Samples));
    assert_eq!(RenderConfig::new(600, 400, 100, 0, None).err(), Some(ConfigError::Depth));
    assert_eq!(
        RenderConfig::new(u32::MAX, u32::MAX, 1, 1, None).err(),
        Some(ConfigError::Size)
    );
}

#[test]
fn the_first_fault_is_reported() {
    assert_eq!(RenderConfig::new(0, 0, 0, 0, None).err(), Some(ConfigError::Width));
    assert_eq!(RenderConfig::new(1, 0, 0, 0, None).err(), Some(ConfigError::Height));
    assert_eq!(RenderConfig::new(1, 1, 0, 0, None).err(), Some(ConfigError::Samples));
    assert_eq!(RenderConfig::new(u32::MAX, u32::MAX, 1, 0, None).err(), Some(ConfigError::Depth));
}

fn small(order: RowOrder) -> Image {
    let config = RenderConfig::new(4, 3, 1, 1, None).unwrap();
    Image::new(&config, order)
}

#[test]
fn a_new_image_is_black() {
    let image = small(RowOrder::TopDown);
    assert_eq!(image.width(), 4);
    assert_eq!(image.height(), 3);
    assert_eq!(image.order(), RowOrder::TopDown);
    assert_eq!(image.bytes(), &vec![0u8; 36]);
    assert_eq!(small(RowOrder::BottomUp).order(), RowOrder::BottomUp);
}

#[test]
fn top_down_the_highest_row_comes_first() {
    let image = small(RowOrder::TopDown);
    assert_eq!(image.offset(2, 0), Some(0));
    assert_eq!(image.offset(2, 3), Some(9));
    assert_eq!(image.offset(1, 0), Some(12));
    assert_eq!(image.offset(0, 0), Some(24));
    assert_eq!(image.offset(0, 3), Some(33));
    assert_eq!(image.offset(3, 0), None);
    assert_eq!(image.offset(0, 4), None);
    assert_eq!(image.offset(u32::MAX, u32::MAX), None);
}

#[test]
fn bottom_up_the_lowest_row_comes_first() {
    let image = small(RowOrder::BottomUp);
    assert_eq!(image.offset(0, 0), Some(0));
    assert_eq!(image.offset(0, 3), Some(9));
    assert_eq!(image.offset(1, 0), Some(12));
    assert_eq!(image.offset(2, 3), Some(33));
    assert_eq!(image.offset(3, 0), None);
    assert_eq!(image.offset(0, 4), None);
}

#[test]
fn a_pixel_that_was_put_is_there_and_no_other_has_changed() {
    let mut image = small(RowOrder::TopDown);
    assert!(image.put(1, 2, [10, 20, 30]));
    let mut expected = vec![0u8; 36];
    expected[18] = 10;
    expected[19] = 20;
    expected[20] = 30;
    assert_eq!(image.bytes(), &expected);
    assert_eq!(image.get(1, 2), Some([10, 20, 30]));
    assert_eq!(image.get(1, 1), Some([0, 0, 0]));

    assert!(image.put(2, 0, [1, 2, 3]));
    assert!(image.put(0, 3, [7, 8, 9]));
    expected[0] = 1;
    expected[1] = 2;
    expected[2] = 3;
    expected[33] = 7;
    expected[34] = 8;
    expected[35] = 9;
    assert_eq!(image.bytes(), &expected);

    assert!(image.put(1, 2, [0, 0, 255]));
    assert_eq!(image.get(1, 2), Some([0, 0, 255]));
}

#[test]
fn outside_the_viewport_nothing_is_put() {
    let mut image = small(RowOrder::BottomUp);
    assert!(image.put(2, 3, [1, 1, 1]));
    let before = image.bytes().clone();
    assert!(!image.put(3, 0, [9, 9, 9]));
    assert!(!image.put(0, 4, [9, 9, 9]));
    assert!(!image.put(u32::MAX, u32::MAX, [9, 9, 9]));
    assert_eq!(image.bytes(), &before);
    assert_eq!(image.get(3, 0), None);
    assert_eq!(image.get(0, 4), None);
}

#[test]
fn every_pixel_has_bytes_of_its_own() {
    for order in [RowOrder::TopDown, RowOrder::BottomUp].iter() {
        let mut image = small(*order);
        for row in 0..3u32 {
            for col in 0..4u32 {
                let k = (row * 4 + col) as u8;
                assert!(image.put(row, col, [k, 100 + k, 200 + k]));
            }
        }
        for row in 0..3u32 {
            for col in 0..4u32 {
                let k = (row * 4 + col) as u8;
                assert_eq!(image.get(row, col), Some([k, 100 + k, 200 + k]));
            }
        }
    }
}
