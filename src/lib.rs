//! Sanitised document reconstruction: the pixel-stream protocol reader and
//! the page layout of the rebuilt document.

pub mod container;
pub mod output_name;
pub mod pdf_reconstructor;
pub mod stream_reader;

pub use container::{ContainerError, ContainerRunner, ContainerRuntime};
pub use output_name::generate_output_filename;
pub use pdf_reconstructor::{PageLayout, PdfError, PdfReconstructor, Points};
pub use stream_reader::{PageData, PixelStreamReader, ReadFailure, StreamError};
