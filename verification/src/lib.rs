//! Driver for the SSD1312 monochrome dot-matrix display controller.
//!
//! The driver keeps a bit-per-pixel framebuffer laid out in the controller's
//! page/column order, frames command and data bytes into transactions on a
//! two-wire serial bus, and offers drawing primitives (pixels, lines,
//! rectangles, monospace text) on top of a generic pixel-canvas capability.
//!
//! The bus itself and the millisecond delay used during initialization are
//! capabilities supplied by the caller through the [`bus::Bus`] and
//! [`bus::DelayMs`] traits; everything the driver sends is recorded, in
//! specification, as a transcript of [`bus::Transaction`] values, and the
//! contracts state exactly which transactions each operation produces.

pub mod bus;
pub mod canvas;
pub mod font;
pub mod framebuffer;
pub mod protocol;
pub mod raster;

mod driver;

pub use driver::Ssd1312;
pub use font::TextStyle;
pub use font::TextStyles;

use vstd::prelude::*;

verus! {

/// Width of the panel in pixels (one byte column per pixel column).
pub const SCREEN_WIDTH: u8 = 128;

/// Height of the panel in pixels.
pub const SCREEN_HEIGHT: u8 = 64;

/// Number of 8-row pages the panel is divided into.
pub const PAGE_COUNT: u8 = 8;

/// Size of the framebuffer in bytes: one byte per column per page.
pub const BUFFER_SIZE: usize = 1024;

/// Fixed bus address of the device (SA0 tied low).
pub const SSD1312_I2C_ADDR: u8 = 0x3C;

} // verus!
