//! Discrete "valid" 2D convolution of multi-channel volumes.

pub mod conv;
pub mod element;
pub mod error;
pub mod volume;

pub use conv::{convolve, convolve_in_place, kernel_centre, ConvolutionExt};
pub use element::Element;
pub use error::Error;
pub use volume::Volume;
