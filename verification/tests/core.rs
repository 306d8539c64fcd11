use pdfium_rs::pdfium_core::BitmapFormat;
use pdfium_rs::pdfium_core::Library;
use pdfium_rs::pdfium_core::PageOrientation;
use pdfium_rs::pdfium_core::PdfiumError;

// The engine-live flag is process-wide, so tests that create a library
// are serialized, as the test harness may run them in parallel threads.
static TEST_LOCK: std::sync::Mutex<()> = std::sync::Mutex::new(());

fn test_lock() -> std::sync::MutexGuard<'static, ()> {
    TEST_LOCK.lock().unwrap_or_else(|e| e.into_inner())
}

fn dummy_pdf() -> Vec<u8> {
    b"%PDF-1.7\n/Page 595 842 3\n".to_vec()
}

fn dummy_password_pdf() -> Vec<u8> {
    b"%PDF-1.7\n/Encrypt (test)\n/Page 595 842 1\n".to_vec()
}

#[test]
fn init_and_destroy_library() {
    let _guard = test_lock();
    let library = Library::init_library();
    drop(library);
}

#[test]
fn lib_only_one_library_at_a_time() {
    let _guard = test_lock();
    let first = Library::init_library();
    assert!(first.is_some());
    let second = Library::init_library();
    assert!(second.is_none());

    drop(first);
    let third = Library::init_library();
    assert!(third.is_some());
}

#[test]
fn lib_page_count() {
    let _guard = test_lock();
    let library = Library::init_library().unwrap();
    let bytes = dummy_pdf();
    let document = library.load_document_from_bytes(&bytes, None).unwrap();

    assert_eq!(library.get_page_count(&document), 1);
}

#[test]
fn lib_page_dimensions() {
    let _guard = test_lock();
    let library = Library::init_library().unwrap();
    let bytes = dummy_pdf();
    let document = library.load_document_from_bytes(&bytes, None).unwrap();
    let page = library.load_page(&document, 0).unwrap();

    assert_eq!(library.get_page_width(&page) as f64, 595.0);
    assert_eq!(library.get_page_height(&page) as f64, 842.0);
}

#[test]
fn lib_render() {
    let _guard = test_lock();
    let library = Library::init_library().unwrap();
    let bytes = dummy_pdf();
    let document = library.load_document_from_bytes(&bytes, None).unwrap();
    let page = library.load_page(&document, 0).unwrap();

    let width: usize = library.get_page_width(&page) as usize;
    let height: usize = library.get_page_height(&page) as usize;
    const CHANNELS: usize = 4;

    let buffer: Vec<u8> = vec![0xFF; CHANNELS * width * height];

    let mut bitmap = library
        .create_bitmap_from_buffer(
            width,
            height,
            BitmapFormat::BGRA,
            buffer,
            width * CHANNELS,
        )
        .unwrap();

    library.render_page_to_bitmap(
        &mut bitmap,
        &page,
        0,
        0,
        width as i32,
        height as i32,
        PageOrientation::Normal,
        0,
    );

    let buffer = bitmap.into_buffer();

    // There is at least one non-white byte.
    assert!(buffer.iter().any(|x| *x != 0xFF));
}

#[test]
fn no_password() {
    let _guard = test_lock();
    let library = Library::init_library().unwrap();
    let bytes = dummy_pdf();
    let document_handle = library.load_document_from_bytes(&bytes, None);

    assert!(document_handle.is_ok());
}

#[test]
fn password() {
    let _guard = test_lock();
    let library = Library::init_library().unwrap();
    let bytes = dummy_password_pdf();
    let document_handle = library.load_document_from_bytes(&bytes, Some(b"test"));
    assert!(document_handle.is_ok());
}

#[test]
fn bad_password() {
    let _guard = test_lock();
    let library = Library::init_library().unwrap();
    let bytes = dummy_password_pdf();
    let document_handle = library.load_document_from_bytes(&bytes, Some(b"wrong password"));
    assert_eq!(document_handle.unwrap_err(), PdfiumError::BadPassword);
}

#[test]
fn password_missing() {
    let _guard = test_lock();
    let library = Library::init_library().unwrap();
    let bytes = dummy_password_pdf();
    let document_handle = library.load_document_from_bytes(&bytes, None);
    assert_eq!(document_handle.unwrap_err(), PdfiumError::BadPassword);
}

#[test]
fn unneeded_password() {
    let _guard = test_lock();
    let library = Library::init_library().unwrap();
    let bytes = dummy_pdf();
    let document_handle = library.load_document_from_bytes(&bytes, Some(b"wrong password"));
    assert!(document_handle.is_ok());
}

#[test]
fn no_data() {
    let _guard = test_lock();
    let library = Library::init_library().unwrap();
    let document_handle = library.load_document_from_bytes(&[], None);
    assert_eq!(document_handle.unwrap_err(), PdfiumError::BadFormat);
}

#[test]
fn bad_data() {
    let _guard = test_lock();
    let library = Library::init_library().unwrap();
    let document_handle = library.load_document_from_bytes(&[0; 255], None);
    assert_eq!(document_handle.unwrap_err(), PdfiumError::BadFormat);
}
