//! The intermediate PDF document: an ordered list of block elements.
//!
//! A conversion builds one `Document` per input file.  A block is a styled
//! paragraph, a forced vertical break, or an image reference.  Break heights
//! and line spacing are kept in integer units (half lines and tenths of a
//! line) so that the model stays exact; the drawing layer scales them.

use vstd::prelude::*;

verus! {

/// Title given to every produced document.
pub const DOC_TITLE: &'static str = "Converted Document";

/// Line spacing of the produced document, in tenths of a line (12 = 1.2).
pub const LINE_SPACING_TENTHS: u8 = 12;

/// Page margins of the produced document.
pub const PAGE_MARGINS: u8 = 10;

/// Font size used for code-like content (JSON, XML, CSV rows, code blocks).
pub const CODE_FONT_SIZE: u8 = 10;

/// An RGB color.
#[derive(Clone, Copy, Debug, PartialEq, Eq, Structural)]
pub struct Color {
    pub red: u8,
    pub green: u8,
    pub blue: u8,
}

/// Style applied to one paragraph: optional bold face, optional font size,
/// optional color.  `Style::plain()` is the default body style.
#[derive(Clone, Copy, Debug, PartialEq, Eq)]
pub struct Style {
    pub bold: bool,
    pub font_size: Option<u8>,
    pub color: Option<Color>,
}

impl Style {
    /// The default body style.
    pub open spec fn spec_plain() -> Style {
        Style { bold: false, font_size: None, color: None }
    }

    /// The style of a section header: bold at the default size.
    pub open spec fn spec_bold() -> Style {
        Style { bold: true, font_size: None, color: None }
    }

    /// The style of code-like content: default face at the code font size.
    pub open spec fn spec_code() -> Style {
        Style { bold: false, font_size: Some(CODE_FONT_SIZE), color: None }
    }

    /// The style of an in-document error message: red text.
    pub open spec fn spec_error() -> Style {
        Style { bold: false, font_size: None, color: Some(Color { red: 255, green: 0, blue: 0 }) }
    }

    /// The style of a Markdown heading: bold at the given size.
    pub open spec fn spec_heading(size: u8) -> Style {
        Style { bold: true, font_size: Some(size), color: None }
    }

    pub fn plain() -> (r: Style)
        ensures
            r == Style::spec_plain(),
    {
        Style { bold: false, font_size: None, color: None }
    }

    pub fn bold_header() -> (r: Style)
        ensures
            r == Style::spec_bold(),
    {
        Style { bold: true, font_size: None, color: None }
    }

    pub fn code() -> (r: Style)
        ensures
            r == Style::spec_code(),
    {
        Style { bold: false, font_size: Some(CODE_FONT_SIZE), color: None }
    }

    pub fn error_red() -> (r: Style)
        ensures
            r == Style::spec_error(),
    {
        Style { bold: false, font_size: None, color: Some(Color { red: 255, green: 0, blue: 0 }) }
    }

    pub fn heading(size: u8) -> (r: Style)
        ensures
            r == Style::spec_heading(size),
    {
        Style { bold: true, font_size: Some(size), color: None }
    }
}

/// The mathematical value of one block: paragraph text as a sequence of
/// characters, breaks in half-line units, images by their source path.
pub enum BlockModel {
    Paragraph { text: Seq<char>, style: Style },
    Break { half_lines: u8 },
    Image { path: Seq<char> },
}

/// One top-level PDF layout element.
#[derive(Clone, Debug, PartialEq)]
pub enum Block {
    /// A paragraph of text with a style.
    Paragraph { text: String, style: Style },
    /// A forced vertical break, in half-line units (1 = 0.5 lines).
    Break { half_lines: u8 },
    /// An image, loaded from the given path when the PDF is drawn.
    Image { path: String },
}

impl DeepView for Block {
    type V = BlockModel;

    open spec fn deep_view(&self) -> BlockModel {
        match self {
            Block::Paragraph { text, style } => BlockModel::Paragraph {
                text: text@,
                style: *style,
            },
            Block::Break { half_lines } => BlockModel::Break { half_lines: *half_lines },
            Block::Image { path } => BlockModel::Image { path: path@ },
        }
    }
}

/// A paragraph block in the model, as the renderers state it.
pub open spec fn para(text: Seq<char>, style: Style) -> BlockModel {
    BlockModel::Paragraph { text, style }
}

/// A break block in the model.
pub open spec fn brk(half_lines: u8) -> BlockModel {
    BlockModel::Break { half_lines }
}

/// The PDF document being built for one input file: its blocks in order.
/// Title, line spacing, margins and conformance level are the fixed values
/// `DOC_TITLE`, `LINE_SPACING_TENTHS`, `PAGE_MARGINS` and minimal conformance.
#[derive(Clone, Debug, PartialEq)]
pub struct Document {
    pub blocks: Vec<Block>,
}

impl DeepView for Document {
    type V = Seq<BlockModel>;

    open spec fn deep_view(&self) -> Seq<BlockModel> {
        self.blocks.deep_view()
    }
}

impl Document {
    /// A new document with no blocks.
    pub fn new() -> (r: Document)
        ensures
            r.deep_view() =~= Seq::<BlockModel>::empty(),
    {
        Document { blocks: Vec::new() }
    }

    /// Append a paragraph block.
    pub fn push_paragraph(&mut self, text: String, style: Style)
        ensures
            final(self).deep_view() =~= old(self).deep_view().push(para(text@, style)),
    {
        self.blocks.push(Block::Paragraph { text, style });
    }

    /// Append a break block.
    pub fn push_break(&mut self, half_lines: u8)
        ensures
            final(self).deep_view() =~= old(self).deep_view().push(brk(half_lines as u8)),
    {
        self.blocks.push(Block::Break { half_lines });
    }

    /// Append an image block.
    pub fn push_image(&mut self, path: String)
        ensures
            final(self).deep_view() =~= old(self).deep_view().push(
                BlockModel::Image { path: path@ },
            ),
    {
        self.blocks.push(Block::Image { path });
    }
}

} // verus!
