//! The shared font resource: one font face, parsed by the application at
//! startup and borrowed by every conversion.
//!
//! Parsing font bytes is left to the application edge: the parser that
//! genpdf uses can panic on truncated input, so no contract here may promise
//! that it returns.  The application hands the parsed face in; the library
//! only carries it.

use vstd::prelude::*;
use genpdf::fonts::FontData;

verus! {

#[verifier::external_type_specification]
#[verifier::external_body]
pub struct ExFontData(FontData);

/// A parsed font face.  The document's font family derives every slot
/// (regular, bold, italic, bold italic) from this single face.
pub struct Font {
    pub data: FontData,
}

/// Wrap a parsed font face for the conversions to share.
pub fn prepare_font(data: FontData) -> (r: Font)
    ensures
        r == (Font { data }),
{
    Font { data }
}

} // verus!
