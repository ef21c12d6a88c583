use ray_tracer::image_buffer::ImageBuffer;
use ray_tracer::image_buffer::Pixel;
use ray_tracer::RayTracerError;

#[test]
fn black_pixel_has_zero_channels() {
    let p = Pixel::black_pixel();
    assert_eq!((p.r, p.g, p.b), (0, 0, 0));
}

#[test]
fn new_pixel_keeps_its_channels() {
    let p = Pixel::new(12, 200, 255);
    assert_eq!(p.r, 12);
    assert_eq!(p.g, 200);
    assert_eq!(p.b, 255);
    assert_eq!(p, Pixel { r: 12, g: 200, b: 255 });
}

#[test]
fn new_buffer_has_its_dimensions_and_is_black() {
    let img = ImageBuffer::new(4, 3);
    assert_eq!(img.width(), 4);
    assert_eq!(img.height(), 3);
    for y in 0..3 {
        for x in 0..4 {
            assert_eq!(img.get_pixel(x, y).unwrap(), Pixel::black_pixel());
        }
    }
}

#[test]
fn buffer_without_pixels_has_no_valid_coordinate() {
    let img = ImageBuffer::new(0, 5);
    assert_eq!(img.width(), 0);
    assert_eq!(img.height(), 5);
    assert!(matches!(img.get_index(0, 0), Err(RayTracerError::OutsideImageBuffer)));
    let img = ImageBuffer::new(5, 0);
    assert!(matches!(img.get_index(0, 0), Err(RayTracerError::OutsideImageBuffer)));
}

#[test]
fn get_index_counts_row_after_row() {
    let img = ImageBuffer::new(400, 200);
    assert_eq!(img.get_index(0, 0).unwrap(), 0);
    assert_eq!(img.get_index(399, 0).unwrap(), 399);
    assert_eq!(img.get_index(0, 1).unwrap(), 400);
    assert_eq!(img.get_index(3, 2).unwrap(), 803);
    assert_eq!(img.get_index(399, 199).unwrap(), 79999);
}

#[test]
fn get_index_rejects_a_column_outside() {
    let img = ImageBuffer::new(400, 200);
    assert!(matches!(img.get_index(400, 0), Err(RayTracerError::OutsideImageBuffer)));
    assert!(matches!(img.get_index(usize::MAX, 199), Err(RayTracerError::OutsideImageBuffer)));
}

#[test]
fn get_index_rejects_a_row_outside() {
    let img = ImageBuffer::new(400, 200);
    assert!(matches!(img.get_index(0, 200), Err(RayTracerError::OutsideImageBuffer)));
    assert!(matches!(img.get_index(399, usize::MAX), Err(RayTracerError::OutsideImageBuffer)));
    assert!(matches!(img.get_index(400, 200), Err(RayTracerError::OutsideImageBuffer)));
}

#[test]
fn get_index_does_not_confuse_columns_and_rows() {
    let img = ImageBuffer::new(2, 5);
    assert_eq!(img.get_index(1, 4).unwrap(), 9);
    assert!(matches!(img.get_index(4, 1), Err(RayTracerError::OutsideImageBuffer)));
}

#[test]
fn a_pixel_that_was_set_is_read_back() {
    let mut img = ImageBuffer::new(3, 2);
    let p = Pixel::new(10, 20, 30);
    assert!(img.set_pixel(2, 1, p).is_ok());
    assert_eq!(img.get_pixel(2, 1).unwrap(), p);
}

#[test]
fn setting_a_pixel_leaves_the_others() {
    let mut img = ImageBuffer::new(3, 2);
    img.set_pixel(0, 0, Pixel::new(1, 1, 1)).unwrap();
    img.set_pixel(1, 1, Pixel::new(9, 8, 7)).unwrap();
    for y in 0..2 {
        for x in 0..3 {
            let expected = match (x, y) {
                (0, 0) => Pixel::new(1, 1, 1),
                (1, 1) => Pixel::new(9, 8, 7),
                _ => Pixel::black_pixel(),
            };
            assert_eq!(img.get_pixel(x, y).unwrap(), expected);
        }
    }
    assert_eq!(img.width(), 3);
    assert_eq!(img.height(), 2);
}

#[test]
fn setting_a_pixel_twice_keeps_the_last() {
    let mut img = ImageBuffer::new(1, 1);
    img.set_pixel(0, 0, Pixel::new(1, 2, 3)).unwrap();
    img.set_pixel(0, 0, Pixel::new(4, 5, 6)).unwrap();
    assert_eq!(img.get_pixel(0, 0).unwrap(), Pixel::new(4, 5, 6));
}

#[test]
fn setting_a_pixel_outside_fails_and_changes_nothing() {
    let mut img = ImageBuffer::new(3, 2);
    img.set_pixel(1, 1, Pixel::new(9, 8, 7)).unwrap();
    let before = img.to_ppm();
    assert!(matches!(
        img.set_pixel(3, 0, Pixel::new(1, 1, 1)),
        Err(RayTracerError::OutsideImageBuffer)
    ));
    assert!(matches!(
        img.set_pixel(0, 2, Pixel::new(1, 1, 1)),
        Err(RayTracerError::OutsideImageBuffer)
    ));
    assert_eq!(img.to_ppm(), before);
}

#[test]
fn reading_a_pixel_outside_fails() {
    let img = ImageBuffer::new(3, 2);
    assert!(matches!(img.get_pixel(3, 1), Err(RayTracerError::OutsideImageBuffer)));
    assert!(matches!(img.get_pixel(2, 2), Err(RayTracerError::OutsideImageBuffer)));
}

#[test]
fn an_io_error_becomes_the_io_variant() {
    let io = std::io::Error::new(std::io::ErrorKind::NotFound, "no such file");
    let e = RayTracerError::from(io);
    match e {
        RayTracerError::IOError(inner) => {
            assert_eq!(inner.kind(), std::io::ErrorKind::NotFound);
        }
        RayTracerError::OutsideImageBuffer => panic!("wrong variant"),
    }
}

#[test]
fn the_question_mark_converts_an_io_error() {
    fn fails() -> ray_tracer::RayTracerResult<()> {
        Err(std::io::Error::new(std::io::ErrorKind::PermissionDenied, "denied"))?;
        Ok(())
    }
    assert!(matches!(fails(), Err(RayTracerError::IOError(_))));
}
