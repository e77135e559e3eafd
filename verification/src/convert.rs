//! The converter: classify the input, render its content into blocks, and
//! say exactly which failures can occur.
//!
//! Reading the input file and drawing the PDF are the application's part;
//! the converter receives the file's content as a plain value and returns
//! the document to draw.

use vstd::prelude::*;
use crate::classify::{spec_classify, FileType};
use crate::docx::{read_docx, spec_docx_text, xml_nodes_of, zip_member_text_of};
use crate::document::{BlockModel, Document};
use crate::markdown::{md_events_of, render_markdown, spec_render_markdown};
use crate::render::{
    csv_table_of, render_csv, render_html, render_json, render_text, render_xml, spec_render_csv,
    spec_render_html, spec_render_json, spec_render_text, spec_render_xml,
};

verus! {

/// The mathematical value of an input's content.
pub enum SourceModel {
    Text(Seq<char>),
    Bytes(Seq<u8>),
    NoData,
}

/// An input file's content, as the application read it: UTF-8 text for the
/// text-like kinds, raw bytes for DOCX and CSV, nothing for images and
/// unknown kinds.
#[derive(Debug, Clone, PartialEq)]
pub enum Source {
    Text(String),
    Bytes(Vec<u8>),
    NoData,
}

impl DeepView for Source {
    type V = SourceModel;

    open spec fn deep_view(&self) -> SourceModel {
        match self {
            Source::Text(t) => SourceModel::Text(t@),
            Source::Bytes(b) => SourceModel::Bytes(b@),
            Source::NoData => SourceModel::NoData,
        }
    }
}

/// How the application must read an input of a kind before converting it.
#[derive(Debug, Clone, Copy, PartialEq, Eq, Structural)]
pub enum ReadMode {
    Utf8Text,
    RawBytes,
    Nothing,
}

/// The read mode of each kind: text-like kinds are read as UTF-8, DOCX and
/// CSV as raw bytes, images and unknown kinds not at all.
pub open spec fn spec_read_mode(k: FileType) -> ReadMode {
    match k {
        FileType::Markdown | FileType::Json | FileType::Xml | FileType::Txt
            | FileType::Html => ReadMode::Utf8Text,
        FileType::Docx | FileType::Csv => ReadMode::RawBytes,
        FileType::Image | FileType::Unknown => ReadMode::Nothing,
    }
}

/// The read mode of a kind, for the application to follow.
pub fn read_mode(k: FileType) -> (r: ReadMode)
    ensures
        r == spec_read_mode(k),
{
    match k {
        FileType::Markdown | FileType::Json | FileType::Xml | FileType::Txt
            | FileType::Html => ReadMode::Utf8Text,
        FileType::Docx | FileType::Csv => ReadMode::RawBytes,
        FileType::Image | FileType::Unknown => ReadMode::Nothing,
    }
}

/// Whether a source value has the shape the kind's read mode asks for.
pub open spec fn source_matches(k: FileType, s: SourceModel) -> bool {
    match spec_read_mode(k) {
        ReadMode::Utf8Text => s is Text,
        ReadMode::RawBytes => s is Bytes,
        ReadMode::Nothing => s is NoData,
    }
}

/// Everything that can make a conversion fail.
#[derive(Debug, Clone, PartialEq)]
pub enum ConvertError {
    /// The extension is not recognized.
    UnsupportedType,
    /// The input file could not be read, or was not valid UTF-8.
    IoError(String),
    /// The DOCX archive was malformed, its document member absent, or its
    /// XML unparseable.
    DocxError(String),
    /// The CSV reader could not be set up over the input.
    CsvError(String),
    /// The PDF could not be written.
    RenderError(String),
    /// A conversion worker dropped its reply channel.
    TaskFailure,
}

impl ConvertError {
    /// The message shown for this error.
    pub open spec fn spec_message(&self) -> Seq<char> {
        match self {
            ConvertError::UnsupportedType => "Unknown file type"@,
            ConvertError::IoError(_) => "Failed to read file"@,
            ConvertError::DocxError(m) => m@,
            ConvertError::CsvError(m) => m@,
            ConvertError::RenderError(_) => "Failed to render PDF"@,
            ConvertError::TaskFailure => "Task cancelled or panicked"@,
        }
    }

    /// The message shown for this error.
    pub fn message(&self) -> (r: String)
        ensures
            r@ == self.spec_message(),
    {
        match self {
            ConvertError::UnsupportedType => "Unknown file type".to_owned(),
            ConvertError::IoError(_) => "Failed to read file".to_owned(),
            ConvertError::DocxError(m) => m.clone(),
            ConvertError::CsvError(m) => m.clone(),
            ConvertError::RenderError(_) => "Failed to render PDF".to_owned(),
            ConvertError::TaskFailure => "Task cancelled or panicked".to_owned(),
        }
    }
}

/// The blocks a conversion produces, or nothing when it fails: `None` for
/// an unknown kind, and for a DOCX whose archive or XML cannot be read.
pub open spec fn spec_convert_blocks(p: Seq<char>, s: SourceModel) -> Option<Seq<BlockModel>> {
    match spec_classify(p) {
        FileType::Unknown => Option::None,
        FileType::Markdown => match s {
            SourceModel::Text(t) => Option::Some(spec_render_markdown(md_events_of(t))),
            _ => Option::None,
        },
        FileType::Json => match s {
            SourceModel::Text(t) => Option::Some(spec_render_json(t)),
            _ => Option::None,
        },
        FileType::Xml => match s {
            SourceModel::Text(t) => Option::Some(spec_render_xml(t)),
            _ => Option::None,
        },
        FileType::Txt => match s {
            SourceModel::Text(t) => Option::Some(spec_render_text(t)),
            _ => Option::None,
        },
        FileType::Html => match s {
            SourceModel::Text(t) => Option::Some(spec_render_html(t)),
            _ => Option::None,
        },
        FileType::Docx => match s {
            SourceModel::Bytes(b) => match zip_member_text_of(b, "word/document.xml"@) {
                Option::None => Option::None,
                Option::Some(x) => match xml_nodes_of(x) {
                    Option::None => Option::None,
                    Option::Some(ns) => Option::Some(spec_render_text(spec_docx_text(ns))),
                },
            },
            _ => Option::None,
        },
        FileType::Csv => match s {
            SourceModel::Bytes(b) => Option::Some(spec_render_csv(csv_table_of(b))),
            _ => Option::None,
        },
        FileType::Image => Option::Some(seq![BlockModel::Image { path: p }]),
    }
}

/// Convert one input: classify the path, render the content into a fresh
/// document.  Returns `UnsupportedType` exactly for an unknown extension and
/// `DocxError` exactly for a DOCX whose archive or XML cannot be read; every
/// other allowed input yields a document.
pub fn convert(path: &str, source: Source) -> (r: Result<Document, ConvertError>)
    requires
        source_matches(spec_classify(path@), source.deep_view()),
    ensures
        (r is Ok) == (spec_convert_blocks(path@, source.deep_view()) is Some),
        r matches Ok(d) ==> spec_convert_blocks(path@, source.deep_view()) == Some(d.deep_view()),
        spec_classify(path@) == FileType::Unknown ==> r == Result::<Document, ConvertError>::Err(
            ConvertError::UnsupportedType,
        ),
        r matches Err(e) ==> (e is UnsupportedType || e is DocxError),
        r matches Err(e) ==> ((e is UnsupportedType) == (spec_classify(path@)
            == FileType::Unknown)),
{
    let kind = FileType::from_path(path);
    let mut doc = Document::new();
    match kind {
        FileType::Unknown => Err(ConvertError::UnsupportedType),
        FileType::Markdown => match source {
            Source::Text(c) => {
                render_markdown(c.as_str(), &mut doc);
                Ok(doc)
            },
            _ => vstd::pervasive::unreached(),
        },
        FileType::Json => match source {
            Source::Text(c) => {
                render_json(c.as_str(), &mut doc);
                Ok(doc)
            },
            _ => vstd::pervasive::unreached(),
        },
        FileType::Xml => match source {
            Source::Text(c) => {
                render_xml(c.as_str(), &mut doc);
                Ok(doc)
            },
            _ => vstd::pervasive::unreached(),
        },
        FileType::Txt => match source {
            Source::Text(c) => {
                render_text(c.as_str(), &mut doc);
                Ok(doc)
            },
            _ => vstd::pervasive::unreached(),
        },
        FileType::Html => match source {
            Source::Text(c) => {
                render_html(c.as_str(), &mut doc);
                Ok(doc)
            },
            _ => vstd::pervasive::unreached(),
        },
        FileType::Docx => match source {
            Source::Bytes(b) => match read_docx(&b) {
                Ok(text) => {
                    render_text(text.as_str(), &mut doc);
                    Ok(doc)
                },
                Err(m) => Err(ConvertError::DocxError(m)),
            },
            _ => vstd::pervasive::unreached(),
        },
        FileType::Csv => match source {
            Source::Bytes(b) => {
                render_csv(&b, &mut doc);
                Ok(doc)
            },
            _ => vstd::pervasive::unreached(),
        },
        FileType::Image => {
            doc.push_image(path.to_owned());
            proof {
                assert(doc.deep_view() =~= seq![BlockModel::Image { path: path@ }]);
            }
            Ok(doc)
        },
    }
}

/// Converting the same input twice builds the same document: what a
/// conversion produces is a function of the path and the content alone, so
/// two runs over equal inputs render identical text, whatever the shared
/// font.
pub proof fn lemma_convert_deterministic(
    p1: Seq<char>,
    s1: SourceModel,
    p2: Seq<char>,
    s2: SourceModel,
)
    requires
        p1 == p2,
        s1 == s2,
    ensures
        spec_convert_blocks(p1, s1) == spec_convert_blocks(p2, s2),
{
}

} // verus!
