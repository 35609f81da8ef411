use nefu::native_image::{CropRect, ImageSize, NativeImage, ResizeOptions};

#[test]
fn test_create_empty() {
    let img = NativeImage::create_empty(100, 100);
    assert_eq!(img.width(), 100);
    assert_eq!(img.height(), 100);
    assert_eq!(img.get_bitmap().len(), 100 * 100 * 4);
}

#[test]
fn test_get_size() {
    let img = NativeImage::create_empty(64, 48);
    let size = img.get_size();
    assert_eq!(size.width, 64);
    assert_eq!(size.height, 48);
}

#[test]
fn test_resize() {
    let img = NativeImage::create_empty(100, 100);
    let resized = img
        .resize(&ResizeOptions { width: Some(50), height: Some(50), quality: None })
        .unwrap();
    assert_eq!(resized.width(), 50);
    assert_eq!(resized.height(), 50);
}

#[test]
fn test_crop() {
    let img = NativeImage::create_empty(100, 100);
    let cropped = img.crop(&CropRect { x: 10, y: 10, width: 50, height: 50 }).unwrap();
    assert_eq!(cropped.width(), 50);
    assert_eq!(cropped.height(), 50);
}

#[test]
fn test_crop_out_of_bounds() {
    let img = NativeImage::create_empty(100, 100);
    let result = img.crop(&CropRect { x: 0, y: 0, width: 200, height: 200 });
    assert!(result.is_err());
}

#[test]
fn test_to_data_url() {
    let img = NativeImage::create_empty(10, 10);
    let url = img.to_data_url().unwrap();
    assert!(url.starts_with("data:image/png;base64,"));
}

#[test]
fn test_thumbnail() {
    let img = NativeImage::create_empty(200, 100);
    let thumb = img.create_thumbnail(50).unwrap();
    assert!(thumb.width() <= 50);
    assert!(thumb.height() <= 50);
}

#[test]
fn test_set_template_image() {
    let mut img = NativeImage::create_empty(32, 32);
    assert!(!img.is_template_image());
    img.set_template_image(true);
    assert!(img.is_template_image());
}

// ---- further cases ----

#[test]
fn resize_keeps_the_side_not_given() {
    let img = NativeImage::create_empty(200, 100);
    let r = img.resize(&ResizeOptions { width: Some(100), height: None, quality: None }).unwrap();
    assert_eq!((r.width(), r.height()), (100, 100));
    assert_eq!(r.get_bitmap().len(), 100 * 100 * 4);
    assert!(img.resize(&ResizeOptions { width: Some(0), height: None, quality: None }).is_err());
}

#[test]
fn thumbnail_exact_sides() {
    let img = NativeImage::create_empty(200, 100);
    let t = img.create_thumbnail(50).unwrap();
    assert_eq!((t.width(), t.height()), (50, 25));
}

#[test]
fn png_roundtrip_through_buffer() {
    let img = NativeImage::create_empty(3, 2);
    let png = img.to_png().unwrap();
    let back = NativeImage::create_from_buffer(&png, None).unwrap();
    assert_eq!((back.width(), back.height()), (3, 2));
    assert_eq!(back.get_bitmap(), img.get_bitmap());
}

#[test]
fn raw_buffer_with_size() {
    let raw = vec![7u8; 2 * 2 * 4];
    let img = NativeImage::create_from_buffer(&raw, Some(&ImageSize { width: 2, height: 2 })).unwrap();
    assert_eq!(img.get_bitmap(), raw.as_slice());
    let bad = NativeImage::create_from_buffer(&raw, Some(&ImageSize { width: 3, height: 3 }));
    assert!(bad.is_err());
}

#[test]
fn crop_at_edge_is_refused() {
    let img = NativeImage::create_empty(10, 10);
    assert!(img.crop(&CropRect { x: 5, y: 0, width: 6, height: 1 }).is_err());
    assert!(img.crop(&CropRect { x: 5, y: 0, width: 5, height: 1 }).is_ok());
}

#[test]
fn crop_copies_the_region_row_by_row() {
    let mut buf = Vec::new();
    for i in 0u8..(3 * 2 * 4) {
        buf.push(i);
    }
    let img = NativeImage::create_from_buffer(&buf, Some(&ImageSize { width: 3, height: 2 })).unwrap();
    let cropped = img.crop(&CropRect { x: 1, y: 0, width: 2, height: 2 }).unwrap();
    assert_eq!(
        cropped.get_bitmap(),
        &[4u8, 5, 6, 7, 8, 9, 10, 11, 16, 17, 18, 19, 20, 21, 22, 23][..]
    );
}
