use pdfium_rs::pdfium_core::BitmapFormat;
use pdfium_rs::pdfium_core::Library;
use pdfium_rs::pdfium_core::PageOrientation;
use pdfium_rs::pdfium_core::PdfiumError;

// The engine-live flag is process-wide, so tests that create a library
// are serialized, as the test harness may run them in parallel threads.
static TEST_LOCK: std::sync::Mutex<()> = std::sync::Mutex::new(());

fn test_lock() -> std::sync::MutexGuard<'static, ()> {
    TEST_LOCK.lock().unwrap_or_else(|e| e.into_inner())
}

#[test]
fn buffer_view_length_natural_stride() {
    let _guard = test_lock();
    let library = Library::init_library().unwrap();
    let buffer: Vec<u8> = vec![0; 400 * 100];
    let bitmap = library
        .create_bitmap_from_buffer(100, 100, BitmapFormat::BGRA, buffer, 400)
        .unwrap();
    assert_eq!(library.get_bitmap_buffer_length(&bitmap), 40000);
}

#[test]
fn buffer_view_length_padded_stride() {
    let _guard = test_lock();
    let library = Library::init_library().unwrap();
    let buffer: Vec<u8> = vec![0; 404 * 100];
    let bitmap = library
        .create_bitmap_from_buffer(100, 100, BitmapFormat::BGRA, buffer, 404)
        .unwrap();
    // Every full row but the last, whose trailing pad is excluded.
    assert_eq!(library.get_bitmap_buffer_length(&bitmap), 404 * 99 + 400);
    assert_eq!(library.get_bitmap_buffer_length(&bitmap), 40396);
}

#[test]
fn create_over_short_buffer_fails() {
    let _guard = test_lock();
    let library = Library::init_library().unwrap();
    let buffer: Vec<u8> = vec![0; 16 * 4 - 1];
    let r = library.create_bitmap_from_buffer(4, 4, BitmapFormat::BGRA, buffer, 16);
    assert_eq!(r.unwrap_err(), PdfiumError::BadFormat);
}

#[test]
fn create_over_exact_buffer_succeeds() {
    let _guard = test_lock();
    let library = Library::init_library().unwrap();
    let buffer: Vec<u8> = vec![0; 16 * 4];
    let r = library.create_bitmap_from_buffer(4, 4, BitmapFormat::BGRA, buffer, 16);
    assert!(r.is_ok());
}

#[test]
fn create_with_zero_dimension_fails() {
    let _guard = test_lock();
    let library = Library::init_library().unwrap();
    assert_eq!(
        library.create_bitmap(0, 100, BitmapFormat::BGRA).unwrap_err(),
        PdfiumError::BadFormat
    );
    assert_eq!(
        library.create_bitmap(100, 0, BitmapFormat::BGRA).unwrap_err(),
        PdfiumError::BadFormat
    );
    let buffer: Vec<u8> = vec![0; 64];
    assert_eq!(
        library
            .create_bitmap_from_buffer(0, 4, BitmapFormat::BGRA, buffer, 16)
            .unwrap_err(),
        PdfiumError::BadFormat
    );
}

#[test]
fn owned_bitmap_is_zeroed_with_natural_stride() {
    let _guard = test_lock();
    let library = Library::init_library().unwrap();
    let bitmap = library.create_bitmap(100, 100, BitmapFormat::BGR).unwrap();
    assert_eq!(library.get_bitmap_width(&bitmap), 100);
    assert_eq!(library.get_bitmap_height(&bitmap), 100);
    assert_eq!(library.get_bitmap_stride(&bitmap), 300);
    assert_eq!(library.get_bitmap_format(&bitmap), BitmapFormat::BGR);
    let view = library.get_bitmap_buffer(&bitmap);
    assert_eq!(view.len(), 100 * 100 * 3);
    assert!(view.iter().all(|x| *x == 0));
}

#[test]
fn fill_rect_writes_color_bytes() {
    let _guard = test_lock();
    let library = Library::init_library().unwrap();
    let buffer: Vec<u8> = vec![0; 32];
    let mut bitmap = library
        .create_bitmap_from_buffer(4, 2, BitmapFormat::BGRA, buffer, 16)
        .unwrap();
    library.bitmap_fill_rect(&mut bitmap, 1, 0, 2, 1, 0xAABBCCDD);
    let out = bitmap.into_buffer();
    let mut expected: Vec<u8> = vec![0; 32];
    // Pixels (1, 0) and (2, 0) take the colour's low bytes in order.
    for p in [1usize, 2] {
        expected[p * 4] = 0xDD;
        expected[p * 4 + 1] = 0xCC;
        expected[p * 4 + 2] = 0xBB;
        expected[p * 4 + 3] = 0xAA;
    }
    assert_eq!(out, expected);
}

#[test]
fn fill_rect_clips_to_bitmap() {
    let _guard = test_lock();
    let library = Library::init_library().unwrap();
    let buffer: Vec<u8> = vec![0; 16];
    let mut bitmap = library
        .create_bitmap_from_buffer(2, 2, BitmapFormat::BGRA, buffer, 8)
        .unwrap();
    library.bitmap_fill_rect(&mut bitmap, -1, -1, 2, 2, 0xFFFFFFFF);
    let out = bitmap.into_buffer();
    // Only pixel (0, 0) lies inside both the rectangle and the bitmap.
    let mut expected: Vec<u8> = vec![0; 16];
    for k in 0..4 {
        expected[k] = 0xFF;
    }
    assert_eq!(out, expected);
}

#[test]
fn render_covers_marked_pixels_exactly() {
    let _guard = test_lock();
    let library = Library::init_library().unwrap();
    let bytes: Vec<u8> = b"%PDF-1.7\n/Page 2 2 3\n".to_vec();
    let document = library.load_document_from_bytes(&bytes, None).unwrap();
    let page = library.load_page(&document, 0).unwrap();
    let buffer: Vec<u8> = vec![0xFF; 16];
    let mut bitmap = library
        .create_bitmap_from_buffer(2, 2, BitmapFormat::BGRA, buffer, 8)
        .unwrap();
    library.render_page_to_bitmap(&mut bitmap, &page, 0, 0, 2, 2, PageOrientation::Normal, 0);
    let out = bitmap.into_buffer();
    // Three marks cover pixels (0,0), (1,0) and (0,1); pixel (1,1) stays white.
    let mut expected: Vec<u8> = vec![0; 16];
    for k in 12..16 {
        expected[k] = 0xFF;
    }
    assert_eq!(out, expected);
}

#[test]
fn render_blank_page_leaves_buffer_unchanged() {
    let _guard = test_lock();
    let library = Library::init_library().unwrap();
    let bytes: Vec<u8> = b"%PDF-1.7\n/Page 8 8 0\n".to_vec();
    let document = library.load_document_from_bytes(&bytes, None).unwrap();
    let page = library.load_page(&document, 0).unwrap();
    let buffer: Vec<u8> = vec![0xFF; 8 * 8 * 4];
    let mut bitmap = library
        .create_bitmap_from_buffer(8, 8, BitmapFormat::BGRA, buffer, 32)
        .unwrap();
    library.render_page_to_bitmap(&mut bitmap, &page, 0, 0, 8, 8, PageOrientation::Normal, 0);
    let out = bitmap.into_buffer();
    assert!(out.iter().all(|x| *x == 0xFF));
}

#[test]
fn single_page_document_page_range() {
    let _guard = test_lock();
    let library = Library::init_library().unwrap();
    let bytes: Vec<u8> = b"%PDF-1.7\n/Page 595 842 1\n".to_vec();
    let document = library.load_document_from_bytes(&bytes, None).unwrap();
    assert_eq!(library.get_page_count(&document), 1);
    assert!(library.load_page(&document, 0).is_ok());
    assert_eq!(
        library.load_page(&document, 1).unwrap_err(),
        PdfiumError::BadPage
    );
}

#[test]
fn header_alone_is_a_document_without_pages() {
    let _guard = test_lock();
    let library = Library::init_library().unwrap();
    let document = library.load_document_from_bytes(b"%PDF-", None).unwrap();
    assert_eq!(library.get_page_count(&document), 0);
    assert_eq!(
        library.load_page(&document, 0).unwrap_err(),
        PdfiumError::BadPage
    );
}

#[test]
fn malformed_records_are_bad_format() {
    let _guard = test_lock();
    let library = Library::init_library().unwrap();
    // Wrong header.
    assert_eq!(
        library
            .load_document_from_bytes(b"%PDX-1.7\n/Page 1 1 0\n", None)
            .unwrap_err(),
        PdfiumError::BadFormat
    );
    // Two encryption records.
    assert_eq!(
        library
            .load_document_from_bytes(b"%PDF-1.7\n/Encrypt (a)\n/Encrypt (b)\n", None)
            .unwrap_err(),
        PdfiumError::BadFormat
    );
    // A zero page dimension.
    assert_eq!(
        library
            .load_document_from_bytes(b"%PDF-1.7\n/Page 0 842 1\n", None)
            .unwrap_err(),
        PdfiumError::BadFormat
    );
    // A dimension past the engine's limit.
    assert_eq!(
        library
            .load_document_from_bytes(b"%PDF-1.7\n/Page 14401 842 1\n", None)
            .unwrap_err(),
        PdfiumError::BadFormat
    );
    // A number of more than nine digits.
    assert_eq!(
        library
            .load_document_from_bytes(b"%PDF-1.7\n/Page 595 842 1234567890\n", None)
            .unwrap_err(),
        PdfiumError::BadFormat
    );
    // A missing separator.
    assert_eq!(
        library
            .load_document_from_bytes(b"%PDF-1.7\n/Page595 842 1\n", None)
            .unwrap_err(),
        PdfiumError::BadFormat
    );
}

#[test]
fn nine_digit_mark_count_is_accepted() {
    let _guard = test_lock();
    let library = Library::init_library().unwrap();
    let document = library
        .load_document_from_bytes(b"%PDF-1.7\n\n/Page 1 1 999999999\n", None)
        .unwrap();
    assert_eq!(library.get_page_count(&document), 1);
}

#[test]
fn error_code_translation() {
    let _guard = test_lock();
    assert_eq!(PdfiumError::from_code(0), None);
    assert_eq!(PdfiumError::from_code(1), Some(PdfiumError::Unknown));
    assert_eq!(PdfiumError::from_code(2), Some(PdfiumError::BadFile));
    assert_eq!(PdfiumError::from_code(3), Some(PdfiumError::BadFormat));
    assert_eq!(PdfiumError::from_code(4), Some(PdfiumError::BadPassword));
    assert_eq!(
        PdfiumError::from_code(5),
        Some(PdfiumError::UnsupportedSecurityScheme)
    );
    assert_eq!(PdfiumError::from_code(6), Some(PdfiumError::BadPage));
    assert_eq!(PdfiumError::from_code(7), Some(PdfiumError::Unknown));
    assert_eq!(PdfiumError::from_code(99), Some(PdfiumError::Unknown));
}

#[test]
fn bytes_per_pixel_of_each_format() {
    let _guard = test_lock();
    assert_eq!(BitmapFormat::GreyScale.bytes_per_pixel(), 1);
    assert_eq!(BitmapFormat::BGR.bytes_per_pixel(), 3);
    assert_eq!(BitmapFormat::BGRx.bytes_per_pixel(), 4);
    assert_eq!(BitmapFormat::BGRA.bytes_per_pixel(), 4);
}

#[test]
fn format_codes_round_trip() {
    let _guard = test_lock();
    assert_eq!(BitmapFormat::from_i32(1), Some(BitmapFormat::GreyScale));
    assert_eq!(BitmapFormat::from_i32(2), Some(BitmapFormat::BGR));
    assert_eq!(BitmapFormat::from_i32(3), Some(BitmapFormat::BGRx));
    assert_eq!(BitmapFormat::from_i32(4), Some(BitmapFormat::BGRA));
    assert_eq!(BitmapFormat::from_i32(0), None);
    assert_eq!(BitmapFormat::from_i32(5), None);
}

#[test]
fn rendering_flags_are_distinct_bits() {
    let _guard = test_lock();
    let flags: Vec<i32> = vec![
        pdfium_rs::rendering_flags::ANNOTATIONS,
        pdfium_rs::rendering_flags::LCD_TEXT,
        pdfium_rs::rendering_flags::NO_NATIVE_TEXT,
        pdfium_rs::rendering_flags::GRAY_SCALE,
        pdfium_rs::rendering_flags::REVERSE_BYTE_ORDER,
        pdfium_rs::rendering_flags::LIMITED_IMAGE_CACHE,
        pdfium_rs::rendering_flags::FORCE_HALFTONE,
        pdfium_rs::rendering_flags::PRINTING,
        pdfium_rs::rendering_flags::NO_SMOOTH_TEXT,
        pdfium_rs::rendering_flags::NO_SMOOTH_IMAGE,
        pdfium_rs::rendering_flags::NO_SMOOTH_PATH,
    ];
    assert_eq!(pdfium_rs::rendering_flags::NORMAL, 0);
    let mut seen: i32 = 0;
    for f in flags {
        assert_eq!(f.count_ones(), 1);
        assert_eq!(seen & f, 0);
        seen |= f;
    }
    assert_eq!(
        pdfium_rs::rendering_flags::GRAY_SCALE | pdfium_rs::rendering_flags::PRINTING,
        0x808
    );
}

#[test]
fn orientation_codes() {
    let _guard = test_lock();
    assert_eq!(PageOrientation::Normal.code(), 0);
    assert_eq!(PageOrientation::Clockwise.code(), 1);
    assert_eq!(PageOrientation::Flip.code(), 2);
    assert_eq!(PageOrientation::CounterClockwise.code(), 3);
}
