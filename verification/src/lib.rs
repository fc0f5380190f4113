pub mod allocation_container;
pub mod bitmaps;
pub mod bundle;
pub mod codecs;
pub mod context;
pub mod errors;
pub mod image_png_decoder;
pub mod image_png_encoder;
pub mod io;
pub mod pixel_convert;
pub mod types;

pub use errors::{ErrorKind, FlowError, OutwardErrorBuffer};
