//! A verified, in-process model of the rendering engine that this crate
//! guards.
//!
//! The model engine accepts a restricted, line-oriented document format:
//!
//! - the buffer must begin with the five bytes `%PDF-`; the rest of that
//!   first line is ignored;
//! - every following line is either empty, an encryption record
//!   `/Encrypt (password)` (at most one, password free of `)`), or a page
//!   record `/Page width height marks` with three decimal numbers of at
//!   most nine digits each, where `width` and `height` are the page size
//!   in points (1 to 14400) and `marks` counts the content marks the
//!   renderer paints;
//! - anything else makes the document malformed.
//!
//! Failures are reported as the engine's raw error codes; the layer above
//! translates them into `PdfiumError` values.

use vstd::prelude::*;

verus! {

/// Raw engine error code: the previous call succeeded.
pub const ERR_SUCCESS: u32 = 0;

/// Raw engine error code: unknown failure.
pub const ERR_UNKNOWN: u32 = 1;

/// Raw engine error code: the file could not be found or opened.
pub const ERR_FILE: u32 = 2;

/// Raw engine error code: the data is not a well-formed document.
pub const ERR_FORMAT: u32 = 3;

/// Raw engine error code: a password is required or the given one is wrong.
pub const ERR_PASSWORD: u32 = 4;

/// Raw engine error code: the document uses an unsupported security scheme.
pub const ERR_SECURITY: u32 = 5;

/// Raw engine error code: the page could not be found or has broken content.
pub const ERR_PAGE: u32 = 6;

/// Raw engine pixel-format code: one grey byte per pixel.
pub const FORMAT_GRAY: i32 = 1;

/// Raw engine pixel-format code: three bytes per pixel (blue, green, red).
pub const FORMAT_BGR: i32 = 2;

/// Raw engine pixel-format code: four bytes per pixel, last byte unused.
pub const FORMAT_BGRX: i32 = 3;

/// Raw engine pixel-format code: four bytes per pixel with alpha.
pub const FORMAT_BGRA: i32 = 4;

/// Largest page dimension, in points, that the engine accepts.
pub const MAX_PAGE_POINTS: u32 = 14400;

/// One page of a parsed document: dimensions in points and the number of
/// content marks the renderer paints.
#[derive(Clone, Copy, Debug, PartialEq, Eq, Structural)]
pub struct PageRec {
    pub width_pts: u32,
    pub height_pts: u32,
    pub marks: u32,
}

/// A parsed document: the engine-side resource a document handle owns.
#[derive(Debug)]
pub struct DocModel {
    pub pages: Vec<PageRec>,
}

pub open spec fn is_digit(b: u8) -> bool {
    48 <= b && b <= 57
}

/// Position of the first newline at or after `i`, or the buffer's length.
pub open spec fn line_end(b: Seq<u8>, i: int) -> int
    decreases b.len() - i,
    when 0 <= i <= b.len()
{
    if i >= b.len() {
        b.len() as int
    } else if b[i] == 10 {
        i
    } else {
        line_end(b, i + 1)
    }
}

pub proof fn lemma_line_end(b: Seq<u8>, i: int)
    requires
        0 <= i <= b.len(),
    ensures
        i <= line_end(b, i) <= b.len(),
        line_end(b, i) < b.len() ==> b[line_end(b, i)] == 10,
        forall|k: int| i <= k < line_end(b, i) ==> b[k] != 10,
    decreases b.len() - i,
{
    if i < b.len() && b[i] != 10 {
        lemma_line_end(b, i + 1);
    }
}

/// Position of the first non-digit byte at or after `i`, or the buffer's
/// length.
pub open spec fn digits_end(b: Seq<u8>, i: int) -> int
    decreases b.len() - i,
    when 0 <= i <= b.len()
{
    if i >= b.len() {
        b.len() as int
    } else if !is_digit(b[i]) {
        i
    } else {
        digits_end(b, i + 1)
    }
}

pub proof fn lemma_digits_end(b: Seq<u8>, i: int)
    requires
        0 <= i <= b.len(),
    ensures
        i <= digits_end(b, i) <= b.len(),
        digits_end(b, i) < b.len() ==> !is_digit(b[digits_end(b, i)]),
        forall|k: int| i <= k < digits_end(b, i) ==> is_digit(b[k]),
    decreases b.len() - i,
{
    if i < b.len() && is_digit(b[i]) {
        lemma_digits_end(b, i + 1);
    }
}

/// Value of the decimal digit run `b[i..j)`.
pub open spec fn num_val(b: Seq<u8>, i: int, j: int) -> int
    decreases j - i,
    when i <= j
{
    if j <= i {
        0
    } else {
        num_val(b, i, j - 1) * 10 + (b[j - 1] - 48)
    }
}

pub open spec fn pow10(n: int) -> int
    decreases n,
{
    if n <= 0 {
        1
    } else {
        10 * pow10(n - 1)
    }
}

pub proof fn lemma_num_val_bound(b: Seq<u8>, i: int, j: int)
    requires
        i <= j,
        forall|k: int| i <= k < j ==> 0 <= #[trigger] b[k] && is_digit(b[k]),
    ensures
        0 <= num_val(b, i, j) < pow10(j - i),
    decreases j - i,
{
    if j > i {
        lemma_num_val_bound(b, i, j - 1);
        assert(num_val(b, i, j - 1) * 10 < pow10(j - 1 - i) * 10) by (nonlinear_arith)
            requires
                num_val(b, i, j - 1) < pow10(j - 1 - i),
        ;
        assert(pow10(j - 1 - i) * 10 == pow10(j - i));
    }
}

pub proof fn lemma_pow10_mono(a: int, c: int)
    requires
        a <= c,
    ensures
        pow10(a) <= pow10(c),
        pow10(a) >= 1,
    decreases c - a,
{
    if a < c {
        lemma_pow10_mono(a, c - 1);
        lemma_pow10_pos(c - 1);
    } else {
        lemma_pow10_pos(a);
    }
}

pub proof fn lemma_pow10_pos(a: int)
    ensures
        pow10(a) >= 1,
    decreases a,
{
    if a > 0 {
        lemma_pow10_pos(a - 1);
    }
}

/// The line `b[i..e)` is an encryption record: `/Encrypt (` password `)`,
/// the password free of `)`.
pub open spec fn is_encrypt_line_at(b: Seq<u8>, i: int, e: int) -> bool {
    &&& i + 11 <= e <= b.len()
    &&& b[i] == 47  // /
    &&& b[i + 1] == 69  // E
    &&& b[i + 2] == 110  // n
    &&& b[i + 3] == 99  // c
    &&& b[i + 4] == 114  // r
    &&& b[i + 5] == 121  // y
    &&& b[i + 6] == 112  // p
    &&& b[i + 7] == 116  // t
    &&& b[i + 8] == 32  // space
    &&& b[i + 9] == 40  // (
    &&& b[e - 1] == 41  // )
    &&& forall|k: int| i + 10 <= k < e - 1 ==> b[k] != 41
}

/// The password bytes of an encryption record line.
pub open spec fn encrypt_pw_at(b: Seq<u8>, i: int, e: int) -> Seq<u8> {
    b.subrange(i + 10, e - 1)
}

/// The line `b[i..e)` is a page record: `/Page ` and three decimal runs of
/// one to nine digits, separated by single spaces, ending the line.
pub open spec fn is_page_line_at(b: Seq<u8>, i: int, e: int) -> bool {
    let a = digits_end(b, i + 6);
    let c = digits_end(b, a + 1);
    let d = digits_end(b, c + 1);
    &&& 0 <= i
    &&& i + 7 <= e <= b.len()
    &&& b[i] == 47  // /
    &&& b[i + 1] == 80  // P
    &&& b[i + 2] == 97  // a
    &&& b[i + 3] == 103  // g
    &&& b[i + 4] == 101  // e
    &&& b[i + 5] == 32  // space
    &&& i + 6 < a && a - (i + 6) <= 9
    &&& a < e && b[a] == 32
    &&& a + 1 < c && c - (a + 1) <= 9
    &&& c < e && b[c] == 32
    &&& c + 1 < d && d - (c + 1) <= 9
    &&& d == e
}

/// The page record a page line carries.
pub open spec fn page_rec_at(b: Seq<u8>, i: int, e: int) -> PageRec {
    let a = digits_end(b, i + 6);
    let c = digits_end(b, a + 1);
    let d = digits_end(b, c + 1);
    PageRec {
        width_pts: num_val(b, i + 6, a) as u32,
        height_pts: num_val(b, a + 1, c) as u32,
        marks: num_val(b, c + 1, d) as u32,
    }
}

/// The page dimensions the engine accepts: one to 14400 points each way.
pub open spec fn page_rec_accepted(p: PageRec) -> bool {
    &&& 1 <= p.width_pts <= MAX_PAGE_POINTS
    &&& 1 <= p.height_pts <= MAX_PAGE_POINTS
}

/// Scanner state: whether the records seen so far are well formed, the
/// encryption record found (if any), and the page records in order.
pub ghost struct ScanSt {
    pub ok: bool,
    pub enc: Option<Seq<u8>>,
    pub pages: Seq<PageRec>,
}

pub open spec fn init_st() -> ScanSt {
    ScanSt { ok: true, enc: None, pages: Seq::empty() }
}

/// One scanner step over the line `b[i..e)`.
pub open spec fn scan_step_at(st: ScanSt, b: Seq<u8>, i: int, e: int) -> ScanSt {
    if !st.ok {
        st
    } else if e == i {
        st
    } else if is_encrypt_line_at(b, i, e) {
        if st.enc is Some {
            ScanSt { ok: false, ..st }
        } else {
            ScanSt { enc: Some(encrypt_pw_at(b, i, e)), ..st }
        }
    } else if is_page_line_at(b, i, e) {
        let p = page_rec_at(b, i, e);
        if page_rec_accepted(p) {
            ScanSt { pages: st.pages.push(p), ..st }
        } else {
            ScanSt { ok: false, ..st }
        }
    } else {
        ScanSt { ok: false, ..st }
    }
}

/// Scan every line of `b` from position `i` on.
pub open spec fn scan_from(b: Seq<u8>, i: int, st: ScanSt) -> ScanSt
    decreases b.len() - i,
    when 0 <= i <= b.len()
    via scan_from_decreases
{
    if i >= b.len() {
        st
    } else {
        let e = line_end(b, i);
        let st2 = scan_step_at(st, b, i, e);
        if e >= b.len() {
            st2
        } else {
            scan_from(b, e + 1, st2)
        }
    }
}

#[via_fn]
proof fn scan_from_decreases(b: Seq<u8>, i: int, st: ScanSt) {
    if 0 <= i < b.len() {
        lemma_line_end(b, i);
    }
}

/// The buffer begins with `%PDF-`.
pub open spec fn header_ok(b: Seq<u8>) -> bool {
    &&& b.len() >= 5
    &&& b[0] == 37  // %
    &&& b[1] == 80  // P
    &&& b[2] == 68  // D
    &&& b[3] == 70  // F
    &&& b[4] == 45  // -
}

/// Position just past the header line.
pub open spec fn body_start(b: Seq<u8>) -> int {
    if line_end(b, 0) >= b.len() {
        b.len() as int
    } else {
        line_end(b, 0) + 1
    }
}

/// The scanner's verdict on the whole buffer.
pub open spec fn doc_scan(b: Seq<u8>) -> ScanSt {
    scan_from(b, body_start(b), init_st())
}

/// The buffer is a well-formed document.
pub open spec fn parse_ok(b: Seq<u8>) -> bool {
    header_ok(b) && doc_scan(b).ok
}

/// The pages of a well-formed document, in order.
pub open spec fn doc_pages(b: Seq<u8>) -> Seq<PageRec> {
    doc_scan(b).pages
}

/// The document's password, if it carries an encryption record.
pub open spec fn doc_password(b: Seq<u8>) -> Option<Seq<u8>> {
    doc_scan(b).enc
}

pub open spec fn pw_view(p: Option<&[u8]>) -> Option<Seq<u8>> {
    match p {
        Some(s) => Some(s@),
        None => None,
    }
}

/// An unencrypted document ignores any supplied password; an encrypted one
/// demands exactly its own.
pub open spec fn password_match(b: Seq<u8>, pw: Option<Seq<u8>>) -> bool {
    match doc_password(b) {
        None => true,
        Some(dp) => pw == Some(dp),
    }
}

/// What opening a buffer with a password yields: the pages, or the raw
/// error code the engine reports.
pub open spec fn open_outcome(b: Seq<u8>, pw: Option<Seq<u8>>) -> Result<Seq<PageRec>, u32> {
    if !parse_ok(b) {
        Err(ERR_FORMAT)
    } else if !password_match(b, pw) {
        Err(ERR_PASSWORD)
    } else {
        Ok(doc_pages(b))
    }
}

fn find_line_end(b: &[u8], i: usize) -> (e: usize)
    requires
        i <= b@.len(),
    ensures
        e == line_end(b@, i as int),
        i <= e <= b@.len(),
{
    proof {
        lemma_line_end(b@, i as int);
    }
    let mut j: usize = i;
    while j < b.len()
        invariant
            i <= j <= b@.len(),
            line_end(b@, i as int) == line_end(b@, j as int),
        decreases b@.len() - j,
    {
        if b[j] == 10 {
            return j;
        }
        j += 1;
    }
    j
}

fn find_digits_end(b: &[u8], i: usize) -> (e: usize)
    requires
        i <= b@.len(),
    ensures
        e == digits_end(b@, i as int),
        i <= e <= b@.len(),
{
    proof {
        lemma_digits_end(b@, i as int);
    }
    let mut j: usize = i;
    while j < b.len()
        invariant
            i <= j <= b@.len(),
            digits_end(b@, i as int) == digits_end(b@, j as int),
        decreases b@.len() - j,
    {
        if b[j] < 48 || b[j] > 57 {
            return j;
        }
        j += 1;
    }
    j
}

/// Value of the digit run `b[i..j)`, which holds at most nine digits.
fn parse_number(b: &[u8], i: usize, j: usize) -> (n: u32)
    requires
        i <= j <= b@.len(),
        j - i <= 9,
        forall|k: int| i <= k < j ==> is_digit(#[trigger] b@[k]),
    ensures
        n == num_val(b@, i as int, j as int),
        n <= 999_999_999,
{
    proof {
        lemma_num_val_bound(b@, i as int, j as int);
        lemma_pow10_mono(j - i, 9);
    }
    let mut k: usize = i;
    let mut acc: u32 = 0;
    while k < j
        invariant
            i <= k <= j <= b@.len(),
            j - i <= 9,
            forall|t: int| i <= t < j ==> is_digit(#[trigger] b@[t]),
            acc == num_val(b@, i as int, k as int),
            acc < pow10(k as int - i as int),
        decreases j - k,
    {
        proof {
            lemma_num_val_bound(b@, i as int, k as int);
            lemma_pow10_mono(k as int - i as int, 8);
            assert(pow10(8) == 100_000_000) by {
                reveal_with_fuel(pow10, 10);
            }
        }
        acc = acc * 10 + (b[k] - 48) as u32;
        k += 1;
    }
    proof {
        lemma_pow10_mono(j as int - i as int, 9);
        assert(pow10(9) == 1_000_000_000) by {
            reveal_with_fuel(pow10, 11);
        }
    }
    acc
}

fn is_encrypt_line(b: &[u8], i: usize, e: usize) -> (r: bool)
    requires
        i <= e <= b@.len(),
    ensures
        r == is_encrypt_line_at(b@, i as int, e as int),
{
    if e - i < 11 {
        return false;
    }
    if !(b[i] == 47 && b[i + 1] == 69 && b[i + 2] == 110 && b[i + 3] == 99 && b[i + 4] == 114
        && b[i + 5] == 121 && b[i + 6] == 112 && b[i + 7] == 116 && b[i + 8] == 32 && b[i + 9]
        == 40) {
        return false;
    }
    if b[e - 1] != 41 {
        return false;
    }
    let mut k: usize = i + 10;
    while k < e - 1
        invariant
            i + 10 <= k <= e - 1,
            i + 11 <= e <= b@.len(),
            forall|t: int| i + 10 <= t < k ==> b@[t] != 41,
        decreases e - 1 - k,
    {
        if b[k] == 41 {
            return false;
        }
        k += 1;
    }
    true
}

fn try_parse_page(b: &[u8], i: usize, e: usize) -> (r: Option<PageRec>)
    requires
        i <= e <= b@.len(),
    ensures
        r is Some <==> is_page_line_at(b@, i as int, e as int),
        r matches Some(p) ==> p == page_rec_at(b@, i as int, e as int),
{
    if e - i < 7 {
        return None;
    }
    if !(b[i] == 47 && b[i + 1] == 80 && b[i + 2] == 97 && b[i + 3] == 103 && b[i + 4] == 101
        && b[i + 5] == 32) {
        return None;
    }
    let a = find_digits_end(b, i + 6);
    if !(i + 6 < a && a - (i + 6) <= 9 && a < e) {
        return None;
    }
    if b[a] != 32 {
        return None;
    }
    let c = find_digits_end(b, a + 1);
    if !(a + 1 < c && c - (a + 1) <= 9 && c < e) {
        return None;
    }
    if b[c] != 32 {
        return None;
    }
    let d = find_digits_end(b, c + 1);
    if !(c + 1 < d && d - (c + 1) <= 9 && d == e) {
        return None;
    }
    proof {
        lemma_digits_end(b@, i as int + 6);
        lemma_digits_end(b@, a as int + 1);
        lemma_digits_end(b@, c as int + 1);
    }
    let w = parse_number(b, i + 6, a);
    let h = parse_number(b, a + 1, c);
    let m = parse_number(b, c + 1, d);
    Some(PageRec { width_pts: w, height_pts: h, marks: m })
}

fn copy_range(b: &[u8], i: usize, j: usize) -> (v: Vec<u8>)
    requires
        i <= j <= b@.len(),
    ensures
        v@ == b@.subrange(i as int, j as int),
{
    let s = vstd::slice::slice_subrange(b, i, j);
    vstd::slice::slice_to_vec(s)
}

fn bytes_eq(a: &[u8], b: &[u8]) -> (r: bool)
    ensures
        r == (a@ == b@),
{
    if a.len() != b.len() {
        return false;
    }
    let mut k: usize = 0;
    while k < a.len()
        invariant
            a@.len() == b@.len(),
            k <= a@.len(),
            forall|t: int| 0 <= t < k ==> a@[t] == b@[t],
        decreases a@.len() - k,
    {
        if a[k] != b[k] {
            return false;
        }
        k += 1;
    }
    proof {
        assert(a@ =~= b@);
    }
    true
}

pub open spec fn enc_view(o: Option<Vec<u8>>) -> Option<Seq<u8>> {
    match o {
        Some(v) => Some(v@),
        None => None,
    }
}

/// The page mark numbered `(row - y) * w + (col - x)` falls on pixel
/// `(col, row)` when the page is rendered into the rectangle at `(x, y)`
/// of size `w` by `h`; a pixel is covered when its mark number is below
/// the page's mark count.
pub open spec fn mark_covers(page: PageRec, x: int, y: int, w: int, h: int, col: int, row: int) -> bool {
    &&& x <= col < x + w
    &&& y <= row < y + h
    &&& (row - y) * w + (col - x) < page.marks
}

/// Byte `i` of a bitmap buffer after rendering `page` into the rectangle
/// at `(x, y)` of size `w` by `h`: bytes of covered pixels become zero,
/// every other byte keeps its old value.
pub open spec fn render_byte(
    buf: Seq<u8>,
    stride: int,
    bpp: int,
    width: int,
    height: int,
    page: PageRec,
    x: int,
    y: int,
    w: int,
    h: int,
    i: int,
) -> u8 {
    let row = i / stride;
    let col = (i % stride) / bpp;
    if row < height && col < width && mark_covers(page, x, y, w, h, col, row) {
        0u8
    } else {
        buf[i]
    }
}

/// The whole buffer after rendering.
pub open spec fn render_result(
    buf: Seq<u8>,
    stride: int,
    bpp: int,
    width: int,
    height: int,
    page: PageRec,
    x: int,
    y: int,
    w: int,
    h: int,
) -> Seq<u8> {
    Seq::new(buf.len(), |i: int| render_byte(buf, stride, bpp, width, height, page, x, y, w, h, i))
}

/// Render `page` into a pixel buffer laid out with the given stride and
/// bytes per pixel.
pub fn render_into(
    buf: &mut Vec<u8>,
    stride: usize,
    bpp: usize,
    width: usize,
    height: usize,
    page: PageRec,
    x: i32,
    y: i32,
    w: i32,
    h: i32,
)
    requires
        stride >= 1,
        bpp >= 1,
        width <= 0x7fff_ffff,
        height <= 0x7fff_ffff,
    ensures
        final(buf)@ == render_result(
            old(buf)@,
            stride as int,
            bpp as int,
            width as int,
            height as int,
            page,
            x as int,
            y as int,
            w as int,
            h as int,
        ),
{
    let ghost target = render_result(
        old(buf)@,
        stride as int,
        bpp as int,
        width as int,
        height as int,
        page,
        x as int,
        y as int,
        w as int,
        h as int,
    );
    let mut i: usize = 0;
    while i < buf.len()
        invariant
            stride >= 1,
            bpp >= 1,
            width <= 0x7fff_ffff,
            height <= 0x7fff_ffff,
            i <= buf@.len(),
            buf@.len() == old(buf)@.len(),
            target == render_result(
                old(buf)@,
                stride as int,
                bpp as int,
                width as int,
                height as int,
                page,
                x as int,
                y as int,
                w as int,
                h as int,
            ),
            forall|k: int| 0 <= k < i ==> buf@[k] == target[k],
            forall|k: int| i <= k < buf@.len() ==> buf@[k] == old(buf)@[k],
        decreases buf@.len() - i,
    {
        let row = i / stride;
        let col = (i % stride) / bpp;
        if row < height && col < width {
            let colr = col as i64;
            let rowr = row as i64;
            let xi = x as i64;
            let yi = y as i64;
            let wi = w as i64;
            let hi = h as i64;
            if xi <= colr && colr < xi + wi && yi <= rowr && rowr < yi + hi {
                proof {
                    assert((rowr - yi) * wi <= 0x7fff_ffff * 0x7fff_ffff && (rowr - yi) * wi
                        >= 0) by (nonlinear_arith)
                        requires
                            0 <= rowr - yi <= 0x7fff_ffff,
                            0 <= wi <= 0x7fff_ffff,
                    ;
                }
                let mark: i64 = (rowr - yi) * wi + (colr - xi);
                if mark < page.marks as i64 {
                    buf[i] = 0;
                }
            }
        }
        i += 1;
    }
}

pub open spec fn pow256(j: int) -> int
    decreases j,
{
    if j <= 0 {
        1
    } else {
        256 * pow256(j - 1)
    }
}

/// Byte `j` of a fill colour: the colour's `j`-th lowest byte.
pub open spec fn color_byte(color: u64, j: int) -> u8 {
    (((color as int) / pow256(j)) % 256) as u8
}

/// Byte `i` of a bitmap buffer after filling the rectangle at `(x, y)` of
/// size `w` by `h` with `color`: each byte of a pixel inside the rectangle
/// takes the matching low byte of the colour, every other byte keeps its
/// old value.
pub open spec fn fill_byte(
    buf: Seq<u8>,
    stride: int,
    bpp: int,
    width: int,
    height: int,
    x: int,
    y: int,
    w: int,
    h: int,
    color: u64,
    i: int,
) -> u8 {
    let row = i / stride;
    let col = (i % stride) / bpp;
    let j = (i % stride) % bpp;
    if row < height && col < width && x <= col < x + w && y <= row < y + h {
        color_byte(color, j)
    } else {
        buf[i]
    }
}

/// The whole buffer after a rectangle fill.
pub open spec fn fill_result(
    buf: Seq<u8>,
    stride: int,
    bpp: int,
    width: int,
    height: int,
    x: int,
    y: int,
    w: int,
    h: int,
    color: u64,
) -> Seq<u8> {
    Seq::new(buf.len(), |i: int| fill_byte(buf, stride, bpp, width, height, x, y, w, h, color, i))
}

/// Fill an axis-aligned rectangle of a pixel buffer with a colour.
pub fn fill_rect_into(
    buf: &mut Vec<u8>,
    stride: usize,
    bpp: usize,
    width: usize,
    height: usize,
    x: i32,
    y: i32,
    w: i32,
    h: i32,
    color: u64,
)
    requires
        stride >= 1,
        1 <= bpp <= 4,
        width <= 0x7fff_ffff,
        height <= 0x7fff_ffff,
    ensures
        final(buf)@ == fill_result(
            old(buf)@,
            stride as int,
            bpp as int,
            width as int,
            height as int,
            x as int,
            y as int,
            w as int,
            h as int,
            color,
        ),
{
    let ghost target = fill_result(
        old(buf)@,
        stride as int,
        bpp as int,
        width as int,
        height as int,
        x as int,
        y as int,
        w as int,
        h as int,
        color,
    );
    let mut i: usize = 0;
    while i < buf.len()
        invariant
            stride >= 1,
            1 <= bpp <= 4,
            width <= 0x7fff_ffff,
            height <= 0x7fff_ffff,
            i <= buf@.len(),
            buf@.len() == old(buf)@.len(),
            target == fill_result(
                old(buf)@,
                stride as int,
                bpp as int,
                width as int,
                height as int,
                x as int,
                y as int,
                w as int,
                h as int,
                color,
            ),
            forall|k: int| 0 <= k < i ==> buf@[k] == target[k],
            forall|k: int| i <= k < buf@.len() ==> buf@[k] == old(buf)@[k],
        decreases buf@.len() - i,
    {
        let row = i / stride;
        let col = (i % stride) / bpp;
        let j = (i % stride) % bpp;
        if row < height && col < width {
            let colr = col as i64;
            let rowr = row as i64;
            let xi = x as i64;
            let yi = y as i64;
            let wi = w as i64;
            let hi = h as i64;
            if xi <= colr && colr < xi + wi && yi <= rowr && rowr < yi + hi {
                let divisor: u64 = if j == 0 {
                    1
                } else if j == 1 {
                    256
                } else if j == 2 {
                    65536
                } else {
                    16777216
                };
                proof {
                    reveal_with_fuel(pow256, 5);
                }
                let byte = ((color / divisor) % 256) as u8;
                assert(byte == color_byte(color, j as int));
                buf[i] = byte;
            }
        }
        i += 1;
    }
}

/// A page without content marks renders as a no-op: the buffer keeps
/// every byte, whatever the target rectangle.
pub proof fn lemma_render_blank_unchanged(
    buf: Seq<u8>,
    stride: int,
    bpp: int,
    width: int,
    height: int,
    page: PageRec,
    x: int,
    y: int,
    w: int,
    h: int,
)
    requires
        page.marks == 0,
    ensures
        render_result(buf, stride, bpp, width, height, page, x, y, w, h) == buf,
{
    let r = render_result(buf, stride, bpp, width, height, page, x, y, w, h);
    assert forall|i: int| 0 <= i < buf.len() implies r[i] == buf[i] by {
        let row = i / stride;
        let col = (i % stride) / bpp;
        if x <= col < x + w && y <= row < y + h {
            assert((row - y) * w >= 0) by (nonlinear_arith)
                requires
                    row - y >= 0,
                    w >= 1,
            ;
        }
    }
    assert(r =~= buf);
}

/// A page with at least one content mark, rendered at the bitmap's
/// origin into a non-empty target rectangle, paints the first byte of
/// the top-left pixel black: an all-white buffer does not come back
/// all white.
pub proof fn lemma_render_marks_visible(
    buf: Seq<u8>,
    stride: int,
    bpp: int,
    width: int,
    height: int,
    page: PageRec,
    w: int,
    h: int,
)
    requires
        page.marks >= 1,
        stride >= 1,
        bpp >= 1,
        width >= 1,
        height >= 1,
        w >= 1,
        h >= 1,
        buf.len() >= 1,
    ensures
        render_result(buf, stride, bpp, width, height, page, 0, 0, w, h)[0] == 0,
{
    assert(mark_covers(page, 0, 0, w, h, 0, 0));
}

/// A page with at least one content mark, rendered at the bitmap's
/// origin into a non-empty target rectangle over an all-white buffer,
/// leaves at least one non-white byte behind.
pub proof fn lemma_render_marks_not_all_white(
    buf: Seq<u8>,
    stride: int,
    bpp: int,
    width: int,
    height: int,
    page: PageRec,
    w: int,
    h: int,
)
    requires
        page.marks >= 1,
        stride >= 1,
        bpp >= 1,
        width >= 1,
        height >= 1,
        w >= 1,
        h >= 1,
        buf.len() >= 1,
    ensures
        exists|i: int|
            0 <= i < buf.len() && render_result(buf, stride, bpp, width, height, page, 0, 0, w, h)[i]
                != 0xFF,
{
    lemma_render_marks_visible(buf, stride, bpp, width, height, page, w, h);
    assert(render_result(buf, stride, bpp, width, height, page, 0, 0, w, h)[0] != 0xFF);
}

/// An unencrypted document ignores any supplied password: opening it
/// with a password yields exactly what opening it with none yields.
pub proof fn lemma_password_ignored_when_unencrypted(b: Seq<u8>, pw: Option<Seq<u8>>)
    requires
        doc_password(b) is None,
    ensures
        open_outcome(b, pw) == open_outcome(b, None),
{
}

/// Open a document buffer with an optional password: parse it against the
/// model format and check the password, yielding the pages or the raw
/// error code.
pub fn open_document(bytes: &[u8], password: Option<&[u8]>) -> (r: Result<DocModel, u32>)
    ensures
        (r matches Ok(d) ==> open_outcome(bytes@, pw_view(password)) == Ok::<Seq<PageRec>, u32>(
            d.pages@,
        )),
        (r matches Err(c) ==> open_outcome(bytes@, pw_view(password)) == Err::<
            Seq<PageRec>,
            u32,
        >(c)),
{
    if bytes.len() < 5 || bytes[0] != 37 || bytes[1] != 80 || bytes[2] != 68 || bytes[3] != 70
        || bytes[4] != 45 {
        return Err(ERR_FORMAT);
    }
    let hl = find_line_end(bytes, 0);
    let mut i: usize = if hl >= bytes.len() {
        bytes.len()
    } else {
        hl + 1
    };
    assert(i == body_start(bytes@));
    let mut ok: bool = true;
    let mut enc: Option<Vec<u8>> = None;
    let mut pages: Vec<PageRec> = Vec::new();
    while i < bytes.len()
        invariant
            i <= bytes@.len(),
            doc_scan(bytes@) == scan_from(
                bytes@,
                i as int,
                ScanSt { ok, enc: enc_view(enc), pages: pages@ },
            ),
        decreases bytes@.len() - i,
    {
        let ghost st_before = ScanSt { ok, enc: enc_view(enc), pages: pages@ };
        let e = find_line_end(bytes, i);
        if ok {
            if e == i {
            } else if is_encrypt_line(bytes, i, e) {
                if enc.is_some() {
                    ok = false;
                } else {
                    enc = Some(copy_range(bytes, i + 10, e - 1));
                }
            } else {
                match try_parse_page(bytes, i, e) {
                    Some(p) => {
                        if 1 <= p.width_pts && p.width_pts <= MAX_PAGE_POINTS && 1
                            <= p.height_pts && p.height_pts <= MAX_PAGE_POINTS {
                            pages.push(p);
                        } else {
                            ok = false;
                        }
                    },
                    None => {
                        ok = false;
                    },
                }
            }
        }
        proof {
            assert(ScanSt { ok, enc: enc_view(enc), pages: pages@ } == scan_step_at(
                st_before,
                bytes@,
                i as int,
                e as int,
            ));
        }
        let ghost old_i = i as int;
        if e >= bytes.len() {
            i = bytes.len();
        } else {
            i = e + 1;
        }
        proof {
            lemma_line_end(bytes@, old_i);
        }
    }
    if !ok {
        return Err(ERR_FORMAT);
    }
    match &enc {
        None => Ok(DocModel { pages }),
        Some(dp) => {
            match password {
                Some(p) => {
                    if bytes_eq(dp.as_slice(), p) {
                        Ok(DocModel { pages })
                    } else {
                        Err(ERR_PASSWORD)
                    }
                },
                None => Err(ERR_PASSWORD),
            }
        },
    }
}

} // verus!
