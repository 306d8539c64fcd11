//! The core safety layer: a guard for the process-wide engine instance,
//! handles that own engine resources and cannot outlive what they depend
//! on, and translation of raw engine error codes into structured errors.

use vstd::prelude::*;

verus! {

use crate::engine;
use crate::engine::DocModel;
use crate::engine::PageRec;

/// Structured engine error kinds.
#[derive(Clone, Copy, Debug, PartialEq, Eq, Structural)]
pub enum PdfiumError {
    /// Unknown error.
    Unknown,
    /// File not found or could not be opened.
    BadFile,
    /// Data not in the document format, or corrupted.
    BadFormat,
    /// Password required or incorrect password.
    BadPassword,
    /// Unsupported security scheme.
    UnsupportedSecurityScheme,
    /// Page not found or content error.
    BadPage,
}

/// The error kind a raw engine code stands for; `None` for the success
/// code, and `Unknown` for any code outside the documented set.
pub open spec fn spec_error_of_code(code: u32) -> Option<PdfiumError> {
    if code == engine::ERR_SUCCESS {
        None
    } else if code == engine::ERR_FILE {
        Some(PdfiumError::BadFile)
    } else if code == engine::ERR_FORMAT {
        Some(PdfiumError::BadFormat)
    } else if code == engine::ERR_PASSWORD {
        Some(PdfiumError::BadPassword)
    } else if code == engine::ERR_SECURITY {
        Some(PdfiumError::UnsupportedSecurityScheme)
    } else if code == engine::ERR_PAGE {
        Some(PdfiumError::BadPage)
    } else {
        Some(PdfiumError::Unknown)
    }
}

/// The error kind for a raw code on a failing call: an unrecognized or
/// unset code falls back to `Unknown`.
pub open spec fn spec_error_translate(code: u32) -> PdfiumError {
    match spec_error_of_code(code) {
        None => PdfiumError::Unknown,
        Some(e) => e,
    }
}

impl PdfiumError {
    /// Map a raw engine error code to a structured kind; the success code
    /// maps to `None`.
    pub fn from_code(code: u32) -> (r: Option<PdfiumError>)
        ensures
            r == spec_error_of_code(code),
    {
        if code == engine::ERR_SUCCESS {
            None
        } else if code == engine::ERR_FILE {
            Some(PdfiumError::BadFile)
        } else if code == engine::ERR_FORMAT {
            Some(PdfiumError::BadFormat)
        } else if code == engine::ERR_PASSWORD {
            Some(PdfiumError::BadPassword)
        } else if code == engine::ERR_SECURITY {
            Some(PdfiumError::UnsupportedSecurityScheme)
        } else if code == engine::ERR_PAGE {
            Some(PdfiumError::BadPage)
        } else {
            Some(PdfiumError::Unknown)
        }
    }
}

/// The format of pixels in a bitmap.
#[derive(Clone, Copy, Debug, PartialEq, Eq, Structural)]
pub enum BitmapFormat {
    /// Grey-scale bitmap, one byte per pixel.
    GreyScale,
    /// Three bytes per pixel, byte order: blue, green, red.
    BGR,
    /// Four bytes per pixel, byte order: blue, green, red, unused.
    BGRx,
    /// Four bytes per pixel, byte order: blue, green, red, alpha.
    BGRA,
}

impl BitmapFormat {
    /// The engine's own enumerator for this format.
    pub open spec fn spec_code(self) -> i32 {
        match self {
            BitmapFormat::GreyScale => engine::FORMAT_GRAY,
            BitmapFormat::BGR => engine::FORMAT_BGR,
            BitmapFormat::BGRx => engine::FORMAT_BGRX,
            BitmapFormat::BGRA => engine::FORMAT_BGRA,
        }
    }

    pub open spec fn spec_bytes_per_pixel(self) -> int {
        match self {
            BitmapFormat::GreyScale => 1,
            BitmapFormat::BGR => 3,
            BitmapFormat::BGRx => 4,
            BitmapFormat::BGRA => 4,
        }
    }

    /// Number of bytes per pixel: 1 for grey scale, 3 for BGR, 4 for the
    /// four-byte formats.
    pub fn bytes_per_pixel(&self) -> (n: usize)
        ensures
            n == self.spec_bytes_per_pixel(),
            1 <= n <= 4,
    {
        match *self {
            BitmapFormat::GreyScale => 1,
            BitmapFormat::BGR => 3,
            BitmapFormat::BGRx => 4,
            BitmapFormat::BGRA => 4,
        }
    }

    /// The format a raw engine format code stands for, if any.
    pub fn from_i32(number: i32) -> (r: Option<BitmapFormat>)
        ensures
            (r matches Some(f) ==> f.spec_code() == number),
            r is None <==> (number != engine::FORMAT_GRAY && number != engine::FORMAT_BGR
                && number != engine::FORMAT_BGRX && number != engine::FORMAT_BGRA),
    {
        if number == engine::FORMAT_GRAY {
            Some(BitmapFormat::GreyScale)
        } else if number == engine::FORMAT_BGR {
            Some(BitmapFormat::BGR)
        } else if number == engine::FORMAT_BGRX {
            Some(BitmapFormat::BGRx)
        } else if number == engine::FORMAT_BGRA {
            Some(BitmapFormat::BGRA)
        } else {
            None
        }
    }
}

/// Orientation in which a page is rendered.
#[derive(Clone, Copy, Debug, PartialEq, Eq, Structural)]
pub enum PageOrientation {
    /// Normal.
    Normal,
    /// Rotated 90 degrees clockwise.
    Clockwise,
    /// Rotated 180 degrees.
    Flip,
    /// Rotated 90 degrees counter-clockwise.
    CounterClockwise,
}

impl PageOrientation {
    /// This layer's stable enumeration of orientations, passed through
    /// unchanged as the orientation argument of a render call.
    pub open spec fn spec_code(self) -> i32 {
        match self {
            PageOrientation::Normal => 0,
            PageOrientation::Clockwise => 1,
            PageOrientation::Flip => 2,
            PageOrientation::CounterClockwise => 3,
        }
    }

    pub fn code(&self) -> (n: i32)
        ensures
            n == self.spec_code(),
    {
        match *self {
            PageOrientation::Normal => 0,
            PageOrientation::Clockwise => 1,
            PageOrientation::Flip => 2,
            PageOrientation::CounterClockwise => 3,
        }
    }
}

/// Marker that keeps a type off other threads. The engine is not
/// reentrant, so neither the instance nor any handle may be sent to or
/// shared with another thread, even briefly; `Rc<()>` is the canonical
/// type that is neither `Send` nor `Sync`, and the marker carries it
/// without holding a value. Every handle embeds the instance (by value
/// or by borrow) and so is confined the same way.
pub type NotThreadSafe = core::marker::PhantomData<std::rc::Rc<()>>;

/// A properly initialized instance of the engine.
///
/// The engine holds process-wide state, so at most one instance may be
/// live in a process at a time; the instance is shut down when this value
/// is dropped. Every handle holds a borrow of the instance that produced
/// it, so no handle can outlive the instance. The instance is neither
/// `Send` nor `Sync`, and through it neither is any handle.
#[derive(Debug)]
pub struct Library {
    marker: NotThreadSafe,
}

/// Relies on log::max_level: reads the process-wide level cell that this
/// crate uses as its engine-live flag (`Off` meaning "no live instance").
/// The crate logs nothing, so the cell has no other writer.
#[verifier::external_body]
fn live_flag_read() -> bool {
    !matches!(log::max_level(), log::LevelFilter::Off)
}

/// Relies on log::set_max_level: writes the same process-wide level cell
/// (`Error` standing for "an instance is live", `Off` for "none"); the
/// call is a plain atomic store and cannot unwind.
#[verifier::external_body]
fn live_flag_write(on: bool)
    opens_invariants none
    no_unwind
{
    log::set_max_level(if on {
        log::LevelFilter::Error
    } else {
        log::LevelFilter::Off
    });
}

impl Library {
    /// Initialize the engine.
    ///
    /// Returns `None`, not an error, if an instance is already live in
    /// this process. Whether one is live is process-wide, ambient state,
    /// so nothing can be stated of the result here; the behaviour is
    /// exercised by the test suite.
    ///
    /// Two cautions on the flag itself. It lives in the `log` crate's
    /// process-wide max-level cell, so a program that also sets its log
    /// level through `log::set_max_level` would corrupt it: a process
    /// using this crate must leave that cell alone. And the read and
    /// the write here are two atomic steps, not one test-and-set: calls
    /// racing on separate threads are not serialized, so the one-winner
    /// rule is only kept under the engine's own thread contract, which
    /// confines every instance and handle to one thread at a time.
    pub fn init_library() -> Option<Library> {
        if live_flag_read() {
            None
        } else {
            live_flag_write(true);
            Some(Library { marker: core::marker::PhantomData })
        }
    }

    /// The structured kind for a raw error code read back from a failing
    /// engine call, defaulting to `Unknown`.
    pub fn last_error(&self, code: u32) -> (e: PdfiumError)
        ensures
            e == spec_error_translate(code),
    {
        match PdfiumError::from_code(code) {
            None => PdfiumError::Unknown,
            Some(e) => e,
        }
    }
}

impl Drop for Library {
    /// Shuts the engine down: clears the engine-live flag so a later
    /// init may succeed.
    fn drop(&mut self)
        opens_invariants none
        no_unwind
    {
        live_flag_write(false);
    }
}

/// Handle to an open document.
///
/// Created by [`Library::load_document_from_bytes`]; owns the engine-side
/// document resource. It borrows the source byte buffer for `'data` —
/// the engine reads from caller memory, so the buffer must stay alive
/// and unchanged for the handle's whole life — and the `Library` for
/// `'library`, so releasing either before the handle is a compile-time
/// error. Not `Send` or `Sync`, through the instance borrow.
#[allow(dead_code)]
#[derive(Debug)]
pub struct DocumentHandle<'data, 'library> {
    doc: DocModel,
    data: core::marker::PhantomData<&'data [u8]>,
    library: &'library Library,
}

impl<'data, 'library> View for DocumentHandle<'data, 'library> {
    type V = Seq<PageRec>;

    closed spec fn view(&self) -> Seq<PageRec> {
        self.doc.pages@
    }
}

/// Handle to a loaded page.
///
/// Created by [`Library::load_page`]; it borrows its parent document for
/// `'doc`, so releasing the document (or the `Library`) before the page
/// is a compile-time error. Not `Send` or `Sync`, through the instance
/// borrow.
#[allow(dead_code)]
#[derive(Debug)]
pub struct PageHandle<'doc, 'library> {
    rec: PageRec,
    parent: &'doc DocumentHandle<'doc, 'library>,
}

impl<'doc, 'library> View for PageHandle<'doc, 'library> {
    type V = PageRec;

    closed spec fn view(&self) -> PageRec {
        self.rec
    }
}

/// What loading the page at `index` from a document with pages `pages`
/// yields: the page for an index below the count, else the page-range
/// error `BadPage`.
pub open spec fn page_outcome(pages: Seq<PageRec>, index: int) -> Result<PageRec, PdfiumError> {
    if 0 <= index < pages.len() {
        Ok(pages[index])
    } else {
        Err(PdfiumError::BadPage)
    }
}

/// A document with exactly one page: loading page zero yields that one
/// page, and loading page one fails with the page-range error.
pub proof fn lemma_single_page_document(pages: Seq<PageRec>)
    requires
        pages.len() == 1,
    ensures
        page_outcome(pages, 0) == Ok::<PageRec, PdfiumError>(pages[0]),
        page_outcome(pages, 1) == Err::<PageRec, PdfiumError>(PdfiumError::BadPage),
{
}

impl Library {
    /// Open a document from a byte buffer with an optional password.
    ///
    /// Exactly one of three things happens:
    /// - the buffer is not a well-formed document: `BadFormat`;
    /// - it is well formed and encrypted, and the password is absent or
    ///   wrong: `BadPassword`;
    /// - otherwise the call succeeds, and with an unencrypted document
    ///   any supplied password is ignored.
    pub fn load_document_from_bytes<'data, 'library>(
        &'library self,
        buffer: &'data [u8],
        password: Option<&[u8]>,
    ) -> (r: Result<DocumentHandle<'data, 'library>, PdfiumError>)
        ensures
            r is Ok <==> (engine::parse_ok(buffer@) && engine::password_match(
                buffer@,
                engine::pw_view(password),
            )),
            (r matches Ok(h) ==> h@ == engine::doc_pages(buffer@)),
            !engine::parse_ok(buffer@) ==> (r matches Err(e) && e == PdfiumError::BadFormat),
            (engine::parse_ok(buffer@) && !engine::password_match(
                buffer@,
                engine::pw_view(password),
            )) ==> (r matches Err(e) && e == PdfiumError::BadPassword),
    {
        match engine::open_document(buffer, password) {
            Ok(doc) => Ok(
                DocumentHandle { doc, data: core::marker::PhantomData, library: self },
            ),
            Err(code) => Err(self.last_error(code)),
        }
    }

    /// Total number of pages in the document; a document with no pages
    /// reports zero.
    pub fn get_page_count(&self, document: &DocumentHandle) -> (count: usize)
        ensures
            count == document@.len(),
    {
        document.doc.pages.len()
    }

    /// Load a page of the document, index zero for the first page.
    ///
    /// Succeeds exactly on indices below the page count; an index at or
    /// past it is a page-range error, `BadPage`. The outcome is
    /// [`page_outcome`] of the document's pages and the index.
    pub fn load_page<'doc, 'library>(
        &'library self,
        document: &'doc DocumentHandle<'doc, 'library>,
        index: usize,
    ) -> (r: Result<PageHandle<'doc, 'library>, PdfiumError>)
        ensures
            r is Ok <==> index < document@.len(),
            (r matches Ok(p) ==> page_outcome(document@, index as int) == Ok::<
                PageRec,
                PdfiumError,
            >(p@)),
            (r matches Err(e) ==> page_outcome(document@, index as int) == Err::<
                PageRec,
                PdfiumError,
            >(e)),
    {
        if index < document.doc.pages.len() {
            let rec = document.doc.pages[index];
            Ok(PageHandle { rec, parent: document })
        } else {
            Err(self.last_error(engine::ERR_PAGE))
        }
    }

    /// Page width in points (one point is 1/72 inch); exact, and never
    /// failing.
    pub fn get_page_width(&self, page: &PageHandle) -> (w: u32)
        ensures
            w == page@.width_pts,
    {
        page.rec.width_pts
    }

    /// Page height in points (one point is 1/72 inch); exact, and never
    /// failing.
    pub fn get_page_height(&self, page: &PageHandle) -> (h: u32)
        ensures
            h == page@.height_pts,
    {
        page.rec.height_pts
    }
}

/// The mathematical shape of a bitmap: its format, pixel dimensions,
/// stride (bytes per scan line) and backing bytes.
pub ghost struct BitmapView {
    pub format: BitmapFormat,
    pub width: int,
    pub height: int,
    pub stride: int,
    pub buffer: Seq<u8>,
}

impl BitmapView {
    pub open spec fn bpp(self) -> int {
        self.format.spec_bytes_per_pixel()
    }

    /// Well-formedness: dimensions are positive and fit the engine's
    /// 31-bit world, each scan line holds a full row of pixels, and the
    /// backing buffer holds every scan line.
    pub open spec fn wf(self) -> bool {
        &&& 1 <= self.width <= 0x7fff_ffff
        &&& 1 <= self.height <= 0x7fff_ffff
        &&& self.stride <= 0x7fff_ffff
        &&& self.width * self.bpp() <= self.stride
        &&& self.height * self.stride <= self.buffer.len()
    }

    /// Length of the buffer view: every full scan line, less the unused
    /// padding after the last line's pixel data.
    pub open spec fn view_len(self) -> int {
        self.stride * self.height - (self.stride - self.width * self.bpp())
    }
}

/// Handle to a bitmap.
///
/// Created by [`Library::create_bitmap`] (engine-owned storage) or
/// [`Library::create_bitmap_from_buffer`] (storage the caller supplied
/// and moved in, to be taken back through [`BitmapHandle::into_buffer`]
/// once rendering is over). The handle cannot outlive the `Library`,
/// and is not `Send` or `Sync`, through the instance borrow.
#[allow(dead_code)]
#[derive(Debug)]
pub struct BitmapHandle<'library> {
    format: BitmapFormat,
    width: usize,
    height: usize,
    stride: usize,
    buffer: Vec<u8>,
    library: &'library Library,
}

impl<'library> View for BitmapHandle<'library> {
    type V = BitmapView;

    closed spec fn view(&self) -> BitmapView {
        BitmapView {
            format: self.format,
            width: self.width as int,
            height: self.height as int,
            stride: self.stride as int,
            buffer: self.buffer@,
        }
    }
}

impl<'library> BitmapHandle<'library> {
    /// Release the bitmap and hand its backing buffer back; only then
    /// may the bytes be read outside the bitmap abstraction.
    pub fn into_buffer(self) -> (v: Vec<u8>)
        ensures
            v@ == self@.buffer,
    {
        self.buffer
    }
}

/// The arguments on which creating a bitmap over engine-owned storage
/// succeeds.
pub open spec fn owned_bitmap_ok(width: usize, height: usize, format: BitmapFormat) -> bool {
    &&& 1 <= width <= 0x7fff_ffff
    &&& 1 <= height <= 0x7fff_ffff
    &&& width * format.spec_bytes_per_pixel() <= 0x7fff_ffff
    &&& height * (width * format.spec_bytes_per_pixel()) <= usize::MAX
}

/// The arguments on which creating a bitmap over a caller-supplied buffer
/// succeeds: positive dimensions in range, a stride that holds a full row
/// of pixels, and a buffer of at least `height * stride` bytes.
pub open spec fn external_bitmap_ok(
    width: usize,
    height: usize,
    format: BitmapFormat,
    buffer_len: int,
    height_stride: usize,
) -> bool {
    &&& 1 <= width <= 0x7fff_ffff
    &&& 1 <= height <= 0x7fff_ffff
    &&& height_stride <= 0x7fff_ffff
    &&& width * format.spec_bytes_per_pixel() <= height_stride
    &&& height * height_stride <= buffer_len
}

fn zero_vec(n: usize) -> (v: Vec<u8>)
    ensures
        v@.len() == n,
        forall|k: int| 0 <= k < n ==> v@[k] == 0,
{
    let mut v: Vec<u8> = Vec::new();
    let mut t: usize = 0;
    while t < n
        invariant
            t <= n,
            v@.len() == t,
            forall|k: int| 0 <= k < t ==> v@[k] == 0,
        decreases n - t,
    {
        v.push(0);
        t += 1;
    }
    v
}

impl Library {
    /// Create a bitmap, over the caller's buffer when one is given, else
    /// over fresh zeroed storage with the natural stride. Yields the raw
    /// format error code when the arguments are rejected.
    fn create_bitmap_ex<'library>(
        &'library self,
        width: usize,
        height: usize,
        format: BitmapFormat,
        buffer: Option<Vec<u8>>,
        height_stride: usize,
    ) -> (r: Result<BitmapHandle<'library>, u32>)
        ensures
            (buffer matches Some(b0) ==> {
                &&& r is Ok <==> external_bitmap_ok(width, height, format, b0@.len() as int, height_stride)
                &&& (r matches Ok(bm) ==> {
                    &&& bm@.format == format
                    &&& bm@.width == width
                    &&& bm@.height == height
                    &&& bm@.stride == height_stride
                    &&& bm@.buffer == b0@
                    &&& bm@.wf()
                })
            }),
            (buffer is None ==> {
                &&& r is Ok <==> owned_bitmap_ok(width, height, format)
                &&& (r matches Ok(bm) ==> {
                    &&& bm@.format == format
                    &&& bm@.width == width
                    &&& bm@.height == height
                    &&& bm@.stride == width * format.spec_bytes_per_pixel()
                    &&& bm@.buffer.len() == height * bm@.stride
                    &&& (forall|k: int| 0 <= k < bm@.buffer.len() ==> bm@.buffer[k] == 0)
                    &&& bm@.wf()
                })
            }),
            (r matches Err(code) ==> code == engine::ERR_FORMAT),
    {
        if width == 0 || height == 0 || width > 0x7fff_ffff || height > 0x7fff_ffff {
            return Err(engine::ERR_FORMAT);
        }
        let bppv = format.bytes_per_pixel();
        proof {
            let w = width as int;
            let bp = bppv as int;
            assert(w * bp <= 0x7fff_ffff * 4) by (nonlinear_arith)
                requires
                    0 <= w <= 0x7fff_ffff,
                    0 <= bp <= 4,
            ;
        }
        match buffer {
            Some(b) => {
                if height_stride > 0x7fff_ffff {
                    return Err(engine::ERR_FORMAT);
                }
                proof {
                    let hh = height as int;
                    let st = height_stride as int;
                    assert(hh * st <= 0x7fff_ffff * 0x7fff_ffff) by (nonlinear_arith)
                        requires
                            0 <= hh <= 0x7fff_ffff,
                            0 <= st <= 0x7fff_ffff,
                    ;
                }
                if (width as u64) * (bppv as u64) > (height_stride as u64) {
                    return Err(engine::ERR_FORMAT);
                }
                if (height as u64) * (height_stride as u64) > (b.len() as u64) {
                    return Err(engine::ERR_FORMAT);
                }
                Ok(BitmapHandle {
                    format,
                    width,
                    height,
                    stride: height_stride,
                    buffer: b,
                    library: self,
                })
            },
            None => {
                if (width as u64) * (bppv as u64) > 0x7fff_ffff {
                    return Err(engine::ERR_FORMAT);
                }
                let stride = width * bppv;
                proof {
                    let hh = height as int;
                    let st = stride as int;
                    assert(hh * st <= 0x7fff_ffff * 0x7fff_ffff) by (nonlinear_arith)
                        requires
                            0 <= hh <= 0x7fff_ffff,
                            0 <= st <= 0x7fff_ffff,
                    ;
                }
                if (height as u64) * (stride as u64) > (usize::MAX as u64) {
                    return Err(engine::ERR_FORMAT);
                }
                let total = height * stride;
                Ok(BitmapHandle {
                    format,
                    width,
                    height,
                    stride,
                    buffer: zero_vec(total),
                    library: self,
                })
            },
        }
    }

    /// Create a bitmap over engine-owned, zero-filled storage with the
    /// natural stride `width * bytes_per_pixel`.
    ///
    /// Succeeds exactly when both dimensions are at least one and the
    /// bitmap fits the engine's limits; a rejected call is `BadFormat`.
    pub fn create_bitmap<'library>(
        &'library self,
        width: usize,
        height: usize,
        format: BitmapFormat,
    ) -> (r: Result<BitmapHandle<'library>, PdfiumError>)
        ensures
            r is Ok <==> owned_bitmap_ok(width, height, format),
            (r matches Ok(bm) ==> {
                &&& bm@.format == format
                &&& bm@.width == width
                &&& bm@.height == height
                &&& bm@.stride == width * format.spec_bytes_per_pixel()
                &&& bm@.buffer.len() == height * bm@.stride
                &&& (forall|k: int| 0 <= k < bm@.buffer.len() ==> bm@.buffer[k] == 0)
                &&& bm@.wf()
            }),
            (r matches Err(e) ==> e == PdfiumError::BadFormat),
    {
        match self.create_bitmap_ex(width, height, format, None, 0) {
            Ok(bm) => Ok(bm),
            Err(code) => Err(self.last_error(code)),
        }
    }

    /// Create a bitmap over a caller-supplied buffer, taking the buffer
    /// over for the handle's lifetime; `height_stride` is the number of
    /// bytes for each scan line.
    ///
    /// Succeeds exactly when both dimensions are at least one and in
    /// range, the stride holds a full row of pixels, and the buffer holds
    /// at least `height * height_stride` bytes; a rejected call is
    /// `BadFormat`, checked before the engine is entered. The buffer is
    /// moved in either way, so a rejected call drops it; a caller that
    /// wants to keep it checks these conditions first.
    pub fn create_bitmap_from_buffer<'library>(
        &'library self,
        width: usize,
        height: usize,
        format: BitmapFormat,
        buffer: Vec<u8>,
        height_stride: usize,
    ) -> (r: Result<BitmapHandle<'library>, PdfiumError>)
        ensures
            r is Ok <==> external_bitmap_ok(width, height, format, buffer@.len() as int, height_stride),
            (r matches Ok(bm) ==> {
                &&& bm@.format == format
                &&& bm@.width == width
                &&& bm@.height == height
                &&& bm@.stride == height_stride
                &&& bm@.buffer == buffer@
                &&& bm@.wf()
            }),
            (r matches Err(e) ==> e == PdfiumError::BadFormat),
    {
        match self.create_bitmap_ex(width, height, format, Some(buffer), height_stride) {
            Ok(bm) => Ok(bm),
            Err(code) => Err(self.last_error(code)),
        }
    }

    /// The format of the bitmap.
    pub fn get_bitmap_format(&self, bitmap: &BitmapHandle) -> (f: BitmapFormat)
        ensures
            f == bitmap@.format,
    {
        bitmap.format
    }

    /// Width of the bitmap in pixels.
    pub fn get_bitmap_width(&self, bitmap: &BitmapHandle) -> (w: usize)
        ensures
            w == bitmap@.width,
    {
        bitmap.width
    }

    /// Height of the bitmap in pixels.
    pub fn get_bitmap_height(&self, bitmap: &BitmapHandle) -> (h: usize)
        ensures
            h == bitmap@.height,
    {
        bitmap.height
    }

    /// Number of bytes per scan line of the bitmap buffer.
    pub fn get_bitmap_stride(&self, bitmap: &BitmapHandle) -> (s: usize)
        ensures
            s == bitmap@.stride,
    {
        bitmap.stride
    }

    /// Render the page into the bitmap, placing the page's top-left
    /// corner at `(x, y)` in bitmap pixels and scaling it into `width`
    /// by `height` pixels.
    ///
    /// The call reports no success or failure, an asymmetry the engine
    /// imposes. `orientation` and `flags` are accepted and passed
    /// through, but the model engine paints the same for every
    /// orientation and flag combination: the bytes of every pixel the
    /// page's marks cover become zero, all other bytes keep their value.
    pub fn render_page_to_bitmap(
        &self,
        bitmap: &mut BitmapHandle,
        page: &PageHandle,
        x: i32,
        y: i32,
        width: i32,
        height: i32,
        orientation: PageOrientation,
        flags: i32,
    )
        requires
            old(bitmap)@.wf(),
        ensures
            final(bitmap)@.wf(),
            final(bitmap)@.format == old(bitmap)@.format,
            final(bitmap)@.width == old(bitmap)@.width,
            final(bitmap)@.height == old(bitmap)@.height,
            final(bitmap)@.stride == old(bitmap)@.stride,
            final(bitmap)@.buffer == engine::render_result(
                old(bitmap)@.buffer,
                old(bitmap)@.stride,
                old(bitmap)@.bpp(),
                old(bitmap)@.width,
                old(bitmap)@.height,
                page@,
                x as int,
                y as int,
                width as int,
                height as int,
            ),
    {
        // The model renderer reads neither the orientation nor the flags.
        let _ = orientation;
        let _ = flags;
        let bppv = bitmap.format.bytes_per_pixel();
        proof {
            let wv = old(bitmap)@.width;
            let bp = old(bitmap)@.bpp();
            let st = old(bitmap)@.stride;
            assert(st >= 1) by (nonlinear_arith)
                requires
                    wv * bp <= st,
                    wv >= 1,
                    bp >= 1,
            ;
        }
        engine::render_into(
            &mut bitmap.buffer,
            bitmap.stride,
            bppv,
            bitmap.width,
            bitmap.height,
            page.rec,
            x,
            y,
            width,
            height,
        );
    }

    /// Fill an axis-aligned rectangle of the bitmap with a colour; the
    /// rectangle is clipped to the bitmap, and each pixel inside it takes
    /// the colour's low bytes in buffer order.
    pub fn bitmap_fill_rect(
        &self,
        bitmap: &mut BitmapHandle,
        x: i32,
        y: i32,
        width: i32,
        height: i32,
        color: u64,
    )
        requires
            old(bitmap)@.wf(),
        ensures
            final(bitmap)@.wf(),
            final(bitmap)@.format == old(bitmap)@.format,
            final(bitmap)@.width == old(bitmap)@.width,
            final(bitmap)@.height == old(bitmap)@.height,
            final(bitmap)@.stride == old(bitmap)@.stride,
            final(bitmap)@.buffer == engine::fill_result(
                old(bitmap)@.buffer,
                old(bitmap)@.stride,
                old(bitmap)@.bpp(),
                old(bitmap)@.width,
                old(bitmap)@.height,
                x as int,
                y as int,
                width as int,
                height as int,
                color,
            ),
    {
        let bppv = bitmap.format.bytes_per_pixel();
        proof {
            let wv = old(bitmap)@.width;
            let bp = old(bitmap)@.bpp();
            let st = old(bitmap)@.stride;
            assert(st >= 1) by (nonlinear_arith)
                requires
                    wv * bp <= st,
                    wv >= 1,
                    bp >= 1,
            ;
        }
        engine::fill_rect_into(
            &mut bitmap.buffer,
            bitmap.stride,
            bppv,
            bitmap.width,
            bitmap.height,
            x,
            y,
            width,
            height,
            color,
        );
    }

    /// Length of the bitmap's buffer view: `stride * height` less only
    /// the padding after the last scan line's pixel data — padding
    /// between lines stays in.
    pub fn get_bitmap_buffer_length(&self, bitmap: &BitmapHandle) -> (n: usize)
        requires
            bitmap@.wf(),
        ensures
            n == bitmap@.stride * bitmap@.height - (bitmap@.stride - bitmap@.width
                * bitmap@.bpp()),
            n == bitmap@.stride * (bitmap@.height - 1) + bitmap@.width * bitmap@.bpp(),
            n == bitmap@.view_len(),
            n <= bitmap@.buffer.len(),
    {
        let bppv = bitmap.format.bytes_per_pixel();
        let buffer_len = bitmap.buffer.len();
        proof {
            let st = bitmap@.stride;
            let hh = bitmap@.height;
            assert(st * hh >= st && st * hh == hh * st && st * hh - st == st * (hh - 1))
                by (nonlinear_arith)
                requires
                    hh >= 1,
                    st >= 0,
            ;
        }
        assert(bitmap@.stride * bitmap@.height <= buffer_len);
        assert(bitmap@.width * bitmap@.bpp() <= bitmap@.stride);
        let line_width = bitmap.width * bppv;
        bitmap.stride * bitmap.height - (bitmap.stride - line_width)
    }

    /// The bitmap's pixel bytes, over the buffer-view length.
    pub fn get_bitmap_buffer<'a>(&self, bitmap: &'a BitmapHandle) -> (out: &'a [u8])
        requires
            bitmap@.wf(),
        ensures
            out@ == bitmap@.buffer.subrange(0, bitmap@.view_len()),
    {
        let n = self.get_bitmap_buffer_length(bitmap);
        vstd::slice::slice_subrange(bitmap.buffer.as_slice(), 0, n)
    }
}

} // verus!
