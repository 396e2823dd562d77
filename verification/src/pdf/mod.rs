//! PDF output: objects, streams, images, fonts and print styling.

pub mod object;
pub mod stream;
pub mod image;
pub mod print_css;
pub mod font;
pub mod svg;
pub mod decimal_real;
pub mod content;
pub mod writer;
pub mod document;

pub use content::PageContent;
pub use writer::PdfWriter;
