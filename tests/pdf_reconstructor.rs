use dangerzone_rust::pdf_reconstructor::DEFAULT_DPI;
use dangerzone_rust::{PageData, PdfError, PdfReconstructor, Points};
use image::GenericImageView;

fn solid(width: u16, height: u16, rgb: [u8; 3]) -> PageData {
    let mut pixels = Vec::new();
    for _ in 0..(width as usize * height as usize) {
        pixels.extend_from_slice(&rgb);
    }
    PageData::new(width, height, pixels).unwrap()
}

fn value(p: Points) -> f64 {
    p.numerator as f64 / p.denominator as f64
}

#[test]
fn test_new_reconstructor() {
    let reconstructor = PdfReconstructor::new();
    assert_eq!(reconstructor.dpi(), DEFAULT_DPI);
}

#[test]
fn test_custom_dpi() {
    let reconstructor = PdfReconstructor::with_dpi(300);
    assert_eq!(reconstructor.dpi(), 300);
}

#[test]
fn test_pixels_to_points() {
    let reconstructor = PdfReconstructor::new();
    // 150 pixels at 150 DPI = 1 inch = 72 points
    let points = reconstructor.pixels_to_points(150);
    assert_eq!(points.numerator as f32 / points.denominator as f32, 72.0);
}

#[test]
fn test_reconstruct_empty_pages() {
    let reconstructor = PdfReconstructor::new();
    let result = reconstructor.reconstruct(vec![]);
    assert!(matches!(result, Err(PdfError::NoPages)));
}

#[test]
fn test_reconstruct_invalid_dimensions() {
    let reconstructor = PdfReconstructor::new();

    let page = PageData {
        width: 0,
        height: 100,
        pixels: vec![],
    };

    let result = reconstructor.reconstruct(vec![page]);
    assert!(matches!(
        result,
        Err(PdfError::InvalidDimensions {
            width: 0,
            height: 100
        })
    ));
}

#[test]
fn default_matches_new() {
    assert_eq!(PdfReconstructor::default().dpi(), 150);
}

#[test]
fn points_are_exact_fractions() {
    let reconstructor = PdfReconstructor::with_dpi(100);
    assert_eq!(
        reconstructor.pixels_to_points(7),
        Points { numerator: 504, denominator: 100 }
    );
    assert_eq!(
        reconstructor.pixels_to_points(65535),
        Points { numerator: 65535 * 72, denominator: 100 }
    );
}

#[test]
fn single_page_layout() {
    let reconstructor = PdfReconstructor::new();
    let page = PageData::new(2, 2, vec![255, 0, 0, 255, 0, 0, 255, 0, 0, 255, 0, 0]).unwrap();
    let layouts = reconstructor.reconstruct(vec![page]).unwrap();
    assert_eq!(layouts.len(), 1);
    assert_eq!(layouts[0].width, Points { numerator: 144, denominator: 150 });
    assert_eq!(layouts[0].height, Points { numerator: 144, denominator: 150 });
    assert_eq!(layouts[0].image.dimensions(), (2, 2));
    assert_eq!(layouts[0].image.as_bytes(), &[255, 0, 0, 255, 0, 0, 255, 0, 0, 255, 0, 0][..]);
}

#[test]
fn multi_page_order_and_sizes() {
    let reconstructor = PdfReconstructor::new();
    let pages = vec![
        solid(5, 5, [255, 0, 0]),
        solid(10, 8, [0, 255, 0]),
        solid(8, 10, [0, 0, 255]),
    ];
    let layouts = reconstructor.reconstruct(pages).unwrap();
    assert_eq!(layouts.len(), 3);
    assert_eq!(value(layouts[0].width), 5.0 / 150.0 * 72.0);
    assert_eq!(value(layouts[0].height), 5.0 / 150.0 * 72.0);
    assert_eq!(layouts[1].width, Points { numerator: 720, denominator: 150 });
    assert_eq!(layouts[1].height, Points { numerator: 576, denominator: 150 });
    assert_eq!(layouts[2].width, Points { numerator: 576, denominator: 150 });
    assert_eq!(layouts[2].height, Points { numerator: 720, denominator: 150 });
    assert_eq!(layouts[0].image.dimensions(), (5, 5));
    assert_eq!(layouts[1].image.dimensions(), (10, 8));
    assert_eq!(layouts[2].image.dimensions(), (8, 10));
    assert_eq!(&layouts[0].image.as_bytes()[..3], &[255, 0, 0]);
    assert_eq!(&layouts[1].image.as_bytes()[..3], &[0, 255, 0]);
    assert_eq!(&layouts[2].image.as_bytes()[..3], &[0, 0, 255]);
}

#[test]
fn doubled_resolution_halves_page() {
    let at_150 = PdfReconstructor::with_dpi(150)
        .reconstruct(vec![solid(150, 150, [128, 128, 128])])
        .unwrap();
    let at_300 = PdfReconstructor::with_dpi(300)
        .reconstruct(vec![solid(150, 150, [128, 128, 128])])
        .unwrap();
    assert_eq!(value(at_150[0].width), 72.0);
    assert_eq!(value(at_300[0].width), 36.0);
    assert_eq!(value(at_300[0].height) * 2.0, value(at_150[0].height));
}

#[test]
fn reconstruction_is_repeatable() {
    let make = || vec![solid(3, 4, [1, 2, 3]), solid(4, 3, [9, 8, 7])];
    let reconstructor = PdfReconstructor::with_dpi(96);
    let first = reconstructor.reconstruct(make()).unwrap();
    let second = reconstructor.reconstruct(make()).unwrap();
    assert_eq!(first.len(), second.len());
    for (a, b) in first.iter().zip(second.iter()) {
        assert_eq!(a.width, b.width);
        assert_eq!(a.height, b.height);
        assert_eq!(a.image.as_bytes(), b.image.as_bytes());
    }
}

#[test]
fn short_pixel_buffer_is_rejected() {
    let page = PageData { width: 2, height: 2, pixels: vec![0; 11] };
    let result = PdfReconstructor::new().reconstruct(vec![solid(1, 1, [0, 0, 0]), page]);
    assert_eq!(
        result.err(),
        Some(PdfError::InvalidDimensions { width: 2, height: 2 })
    );
}

#[test]
fn first_bad_page_is_reported() {
    let pages = vec![
        solid(1, 1, [0, 0, 0]),
        PageData { width: 3, height: 0, pixels: vec![] },
        PageData { width: 0, height: 4, pixels: vec![] },
    ];
    assert_eq!(
        PdfReconstructor::new().reconstruct(pages).err(),
        Some(PdfError::InvalidDimensions { width: 3, height: 0 })
    );
}
