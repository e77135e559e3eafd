//! A verified core for a batch document-to-PDF converter.
//!
//! The library classifies input files by extension, extracts text from the
//! supported formats (Markdown, JSON, XML, plain text, DOCX, HTML, CSV,
//! raster images), and lays the content out as an ordered list of PDF blocks.
//! A batch state machine tracks per-file progress.  Everything that decides or
//! computes is verified; reading input files and drawing the final PDF are
//! left to the surrounding application.

pub mod document;
pub mod convert;
pub mod docx;
pub mod font;
pub mod batch;
pub mod classify;
pub mod markdown;
pub mod paths;
pub mod render;
pub mod textlines;

use vstd::prelude::*;

verus! {

} // verus!
