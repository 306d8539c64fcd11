//! Page rendering flags for render calls, combined with bit-wise OR.
//!
//! The values are the engine's own enumerators and are passed through
//! unchanged; the model engine accepts and records them but paints the
//! same for every combination.

use vstd::prelude::*;

verus! {

/// Normal display (no flags).
pub const NORMAL: i32 = 0;

/// Render annotations.
pub const ANNOTATIONS: i32 = 0x01;

/// Use text rendering optimized for LCD display; only effective while
/// anti-aliasing is enabled for text.
pub const LCD_TEXT: i32 = 0x02;

/// Do not use the native text output available on some platforms.
pub const NO_NATIVE_TEXT: i32 = 0x04;

/// Grayscale output.
pub const GRAY_SCALE: i32 = 0x08;

/// Render in reverse byte order; only used when rendering to a bitmap.
pub const REVERSE_BYTE_ORDER: i32 = 0x10;

/// Limit the image cache size.
pub const LIMITED_IMAGE_CACHE: i32 = 0x200;

/// Always use halftone for image stretching.
pub const FORCE_HALFTONE: i32 = 0x400;

/// Render for printing.
pub const PRINTING: i32 = 0x800;

/// Disable anti-aliasing on text; also disables LCD optimization.
pub const NO_SMOOTH_TEXT: i32 = 0x1000;

/// Disable anti-aliasing on images.
pub const NO_SMOOTH_IMAGE: i32 = 0x2000;

/// Disable anti-aliasing on paths.
pub const NO_SMOOTH_PATH: i32 = 0x4000;

} // verus!
