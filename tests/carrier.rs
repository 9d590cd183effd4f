use mindbender::carrier::Carrier;

#[test]
fn from_pixel_repeats_the_pixel() {
    let image = Carrier::from_pixel(2, 3, [1, 2, 3]);
    assert_eq!(image.width(), 2);
    assert_eq!(image.height(), 3);
    assert_eq!(image.samples(), &[1, 2, 3, 1, 2, 3, 1, 2, 3, 1, 2, 3, 1, 2, 3, 1, 2, 3][..]);
}

#[test]
fn from_raw_checks_the_length() {
    assert!(Carrier::from_raw(2, 2, vec![0; 12]).is_some());
    assert!(Carrier::from_raw(2, 2, vec![0; 11]).is_none());
    assert!(Carrier::from_raw(2, 2, vec![0; 13]).is_none());
    assert!(Carrier::from_raw(u32::MAX, u32::MAX, vec![0; 3]).is_none());
    let image = Carrier::from_raw(1, 2, vec![9, 8, 7, 6, 5, 4]).unwrap();
    assert_eq!(image.into_raw(), vec![9, 8, 7, 6, 5, 4]);
}

#[test]
fn channel_index_is_row_major() {
    let image = Carrier::from_pixel(4, 3, [0, 0, 0]);
    assert_eq!(image.channel_index(0, 0, 0), 0);
    assert_eq!(image.channel_index(1, 0, 2), 5);
    assert_eq!(image.channel_index(0, 1, 0), 12);
    assert_eq!(image.channel_index(3, 2, 2), 35);
    assert_eq!(image.capacity_bits(), 36);
}

#[test]
fn clone_keeps_everything() {
    let image = Carrier::from_raw(1, 1, vec![4, 5, 6]).unwrap();
    let copy = image.clone();
    assert_eq!(copy, image);
}
