//! A safety layer over a handle-based document-rendering engine.
//!
//! The engine behind this crate is process-wide and handle-based: it must
//! be initialized at most once per process, resources form a hierarchy
//! (document, then page; buffer, then bitmap), and using a child resource
//! after its parent is gone is a hazard. This crate makes those rules
//! structural: a single [`Library`] guard stands for the live engine
//! instance, every handle borrows the value it depends on so that release
//! order cannot be wrong, destruction happens exactly once when a value
//! drops, and each fallible call returns a structured [`PdfiumError`]
//! instead of leaving an ambient error code behind.
//!
//! The engine itself is the verified in-process model in [`engine`]: it
//! parses a restricted, line-oriented document format and rasterizes page
//! content marks into pixel buffers. Every operation of this crate is
//! specified against that model.
//!
//! All calls are synchronous and meant for single-threaded, cooperative
//! use; the only process-wide mutable state is the engine-live flag
//! behind [`Library::init`], held in an atomic cell.

use vstd::prelude::*;

pub mod engine;
pub mod pdfium_core;
pub mod rendering_flags;

verus! {

use crate::engine::PageRec;
use crate::pdfium_core::BitmapView;
use crate::pdfium_core::BitmapHandle;
use crate::pdfium_core::DocumentHandle;
use crate::pdfium_core::PageHandle;

pub use crate::pdfium_core::BitmapFormat;
pub use crate::pdfium_core::PageOrientation;
pub use crate::pdfium_core::PdfiumError;

/// The live engine instance; at most one exists per process at a time.
///
/// Every [`Document`], [`Page`] and [`Bitmap`] borrows the `Library` it
/// came from, so none of them can outlive it; and since the engine is
/// not reentrant, neither the `Library` nor any of them is `Send` or
/// `Sync`.
pub struct Library {
    core: pdfium_core::Library,
}

impl Library {
    /// Initialize the engine; returns `None`, not an error, while
    /// another instance is live in this process. Dropping the returned
    /// value shuts the engine down so a later `init` may succeed.
    ///
    /// The liveness flag sits in the `log` crate's process-wide
    /// max-level cell, so the process must not set its log level
    /// through `log::set_max_level` itself; and the flag's read and
    /// write are two atomic steps, not one test-and-set, so calls
    /// racing on separate threads are not serialized — the one-winner
    /// rule holds under the engine's thread contract, which confines
    /// all use to one thread at a time.
    pub fn init() -> Option<Library> {
        match pdfium_core::Library::init_library() {
            Some(core) => Some(Library { core }),
            None => None,
        }
    }

    /// Open a document from a byte buffer, with no password; the buffer
    /// is borrowed for the document's whole life.
    ///
    /// A buffer that is not a well-formed document yields `BadFormat`;
    /// a well-formed but encrypted document yields `BadPassword`;
    /// otherwise the call succeeds.
    pub fn document_from_bytes<'a>(&'a self, buffer: &'a [u8]) -> (r: Result<
        Document<'a, 'a>,
        PdfiumError,
    >)
        ensures
            r is Ok <==> (crate::engine::parse_ok(buffer@) && crate::engine::password_match(
                buffer@,
                None,
            )),
            (r matches Ok(d) ==> d@ == crate::engine::doc_pages(buffer@)),
            !crate::engine::parse_ok(buffer@) ==> (r matches Err(e) && e
                == PdfiumError::BadFormat),
            (crate::engine::parse_ok(buffer@) && !crate::engine::password_match(buffer@, None))
                ==> (r matches Err(e) && e == PdfiumError::BadPassword),
    {
        match self.core.load_document_from_bytes(buffer, None) {
            Ok(handle) => Ok(Document { handle, core: &self.core }),
            Err(e) => Err(e),
        }
    }

    /// Create a bitmap over a buffer the caller supplies and moves in;
    /// the engine renders into it, and [`Bitmap::into_buffer`] hands it
    /// back once the bitmap is released.
    ///
    /// Succeeds exactly when the dimensions are positive and in range,
    /// `height_stride` holds a full row of pixels, and the buffer holds
    /// at least `height * height_stride` bytes; rejected arguments yield
    /// `BadFormat`. The buffer is moved in either way, so a rejected
    /// call drops it; a caller that wants to keep it checks these
    /// conditions first.
    pub fn bitmap_from_external_buffer<'a>(
        &'a self,
        width: usize,
        height: usize,
        height_stride: usize,
        format: BitmapFormat,
        buffer: Vec<u8>,
    ) -> (r: Result<Bitmap<'a>, PdfiumError>)
        ensures
            r is Ok <==> crate::pdfium_core::external_bitmap_ok(
                width,
                height,
                format,
                buffer@.len() as int,
                height_stride,
            ),
            (r matches Ok(bm) ==> {
                &&& bm@.format == format
                &&& bm@.width == width
                &&& bm@.height == height
                &&& bm@.stride == height_stride
                &&& bm@.buffer == buffer@
                &&& bm@.wf()
            }),
            (r matches Err(e) ==> e == PdfiumError::BadFormat),
    {
        match self.core.create_bitmap_from_buffer(width, height, format, buffer, height_stride) {
            Ok(handle) => Ok(Bitmap { handle, core: &self.core }),
            Err(e) => Err(e),
        }
    }
}

/// An open document, bound to the source byte buffer it was opened
/// from and to the [`Library`] that opened it: neither may be released
/// while the document lives.
pub struct Document<'data, 'library> {
    handle: DocumentHandle<'data, 'library>,
    core: &'library pdfium_core::Library,
}

impl<'data, 'library> View for Document<'data, 'library> {
    type V = Seq<PageRec>;

    closed spec fn view(&self) -> Seq<PageRec> {
        self.handle@
    }
}

impl<'data, 'library> Document<'data, 'library> {
    /// Total number of pages; a document with no pages reports zero.
    pub fn page_count(&self) -> (count: usize)
        ensures
            count == self@.len(),
    {
        self.core.get_page_count(&self.handle)
    }

    /// Load a page, index zero for the first; succeeds exactly on
    /// indices below the page count, and an index at or past it is a
    /// page-range error, `BadPage`. The outcome is
    /// [`crate::pdfium_core::page_outcome`] of the document's pages and
    /// the index.
    pub fn page<'doc>(&'doc self, index: usize) -> (r: Result<
        Page<'doc, 'library>,
        PdfiumError,
    >)
        ensures
            r is Ok <==> index < self@.len(),
            (r matches Ok(p) ==> crate::pdfium_core::page_outcome(self@, index as int) == Ok::<
                PageRec,
                PdfiumError,
            >(p@)),
            (r matches Err(e) ==> crate::pdfium_core::page_outcome(self@, index as int) == Err::<
                PageRec,
                PdfiumError,
            >(e)),
    {
        match self.core.load_page(&self.handle, index) {
            Ok(handle) => Ok(Page { handle, core: self.core }),
            Err(e) => Err(e),
        }
    }
}

/// A loaded page, bound to the [`Document`] it came from.
pub struct Page<'doc, 'library> {
    handle: PageHandle<'doc, 'library>,
    core: &'library pdfium_core::Library,
}

impl<'doc, 'library> View for Page<'doc, 'library> {
    type V = PageRec;

    closed spec fn view(&self) -> PageRec {
        self.handle@
    }
}

impl<'doc, 'library> Page<'doc, 'library> {
    /// Page width in points (one point is 1/72 inch), exactly as the
    /// document records it.
    pub fn width(&self) -> (w: u32)
        ensures
            w == self@.width_pts,
    {
        self.core.get_page_width(&self.handle)
    }

    /// Page height in points (one point is 1/72 inch), exactly as the
    /// document records it.
    pub fn height(&self) -> (h: u32)
        ensures
            h == self@.height_pts,
    {
        self.core.get_page_height(&self.handle)
    }

    /// Render this page over the whole bitmap, in normal orientation
    /// with no flags: the bytes of every pixel the page's marks cover
    /// become zero, all other bytes keep their value.
    pub fn render_to(&self, bitmap: &mut Bitmap)
        requires
            old(bitmap)@.wf(),
        ensures
            final(bitmap)@.wf(),
            final(bitmap)@.format == old(bitmap)@.format,
            final(bitmap)@.width == old(bitmap)@.width,
            final(bitmap)@.height == old(bitmap)@.height,
            final(bitmap)@.stride == old(bitmap)@.stride,
            final(bitmap)@.buffer == crate::engine::render_result(
                old(bitmap)@.buffer,
                old(bitmap)@.stride,
                old(bitmap)@.bpp(),
                old(bitmap)@.width,
                old(bitmap)@.height,
                self@,
                0,
                0,
                old(bitmap)@.width,
                old(bitmap)@.height,
            ),
    {
        let width = bitmap.width() as i32;
        let height = bitmap.height() as i32;
        self.core.render_page_to_bitmap(
            &mut bitmap.handle,
            &self.handle,
            0,
            0,
            width,
            height,
            PageOrientation::Normal,
            0,
        );
    }
}

/// A bitmap, bound to the [`Library`] that created it; it owns its
/// backing buffer until [`Bitmap::into_buffer`] releases it.
pub struct Bitmap<'library> {
    handle: BitmapHandle<'library>,
    core: &'library pdfium_core::Library,
}

impl<'library> View for Bitmap<'library> {
    type V = BitmapView;

    closed spec fn view(&self) -> BitmapView {
        self.handle@
    }
}

impl<'library> Bitmap<'library> {
    /// Width of the bitmap in pixels.
    pub fn width(&self) -> (w: usize)
        ensures
            w == self@.width,
    {
        self.core.get_bitmap_width(&self.handle)
    }

    /// Height of the bitmap in pixels.
    pub fn height(&self) -> (h: usize)
        ensures
            h == self@.height,
    {
        self.core.get_bitmap_height(&self.handle)
    }

    /// Fill an axis-aligned rectangle with a colour; the rectangle is
    /// clipped to the bitmap, and each pixel inside it takes the
    /// colour's low bytes in buffer order.
    pub fn fill_rect(&mut self, x: i32, y: i32, width: i32, height: i32, color: u64)
        requires
            old(self)@.wf(),
        ensures
            final(self)@.wf(),
            final(self)@.format == old(self)@.format,
            final(self)@.width == old(self)@.width,
            final(self)@.height == old(self)@.height,
            final(self)@.stride == old(self)@.stride,
            final(self)@.buffer == crate::engine::fill_result(
                old(self)@.buffer,
                old(self)@.stride,
                old(self)@.bpp(),
                old(self)@.width,
                old(self)@.height,
                x as int,
                y as int,
                width as int,
                height as int,
                color,
            ),
    {
        self.core.bitmap_fill_rect(&mut self.handle, x, y, width, height, color)
    }

    /// Release the bitmap and hand its backing buffer back; only then
    /// may the bytes be read outside the bitmap abstraction.
    pub fn into_buffer(self) -> (v: Vec<u8>)
        ensures
            v@ == self@.buffer,
    {
        self.handle.into_buffer()
    }
}

} // verus!
