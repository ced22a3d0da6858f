//! Relative luminance and WCAG 2 contrast ratios for sRGB colors,
//! computed in exact fixed-point arithmetic.
//!
//! A [`Color`] holds three 8-bit sRGB channels.  [`luminance`] linearizes
//! each channel with the two-segment sRGB transfer curve and combines them
//! with the BT.709 weights; [`contrast`] forms the WCAG ratio of the two
//! ambient-adjusted luminances.  All values are scaled integers: a
//! luminance of `LUMINANCE_ONE` stands for 1.0, and a contrast of
//! `21 * CONTRAST_ONE` stands for the maximal ratio 21.0.

pub mod srgb;
pub mod wcag;

pub use srgb::linear_channel;
pub use srgb::LINEAR_ONE;
pub use wcag::contrast;
pub use wcag::luminance;
pub use wcag::Color;
pub use wcag::CONTRAST_ONE;
pub use wcag::LUMINANCE_ONE;
