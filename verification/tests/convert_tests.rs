use std::io::Write;
use topdf::classify::FileType;
use topdf::convert::{convert, read_mode, ConvertError, ReadMode, Source};
use topdf::document::{Block, Style};
use topdf::docx::read_docx;

fn plain() -> Style {
    Style { bold: false, font_size: None, color: None }
}

fn para(text: &str, style: Style) -> Block {
    Block::Paragraph { text: text.to_string(), style }
}

fn docx_bytes(document_xml: &str) -> Vec<u8> {
    let cursor = std::io::Cursor::new(Vec::new());
    let mut writer = zip::ZipWriter::new(cursor);
    let options = zip::write::SimpleFileOptions::default();
    writer.start_file("word/document.xml", options).unwrap();
    writer.write_all(document_xml.as_bytes()).unwrap();
    writer.finish().unwrap().into_inner()
}

#[test]
fn unknown_extension_is_unsupported() {
    let r = convert("note.unknownext", Source::NoData);
    assert_eq!(r, Err(ConvertError::UnsupportedType));
}

#[test]
fn unsupported_message_text() {
    assert_eq!(ConvertError::UnsupportedType.message(), "Unknown file type");
    assert_eq!(ConvertError::TaskFailure.message(), "Task cancelled or panicked");
    assert_eq!(ConvertError::IoError("oops".to_string()).message(), "Failed to read file");
    assert_eq!(ConvertError::RenderError("oops".to_string()).message(), "Failed to render PDF");
    assert_eq!(ConvertError::DocxError("bad zip".to_string()).message(), "bad zip");
    assert_eq!(ConvertError::CsvError("bad csv".to_string()).message(), "bad csv");
}

#[test]
fn read_modes_per_kind() {
    assert_eq!(read_mode(FileType::Markdown), ReadMode::Utf8Text);
    assert_eq!(read_mode(FileType::Json), ReadMode::Utf8Text);
    assert_eq!(read_mode(FileType::Xml), ReadMode::Utf8Text);
    assert_eq!(read_mode(FileType::Txt), ReadMode::Utf8Text);
    assert_eq!(read_mode(FileType::Html), ReadMode::Utf8Text);
    assert_eq!(read_mode(FileType::Docx), ReadMode::RawBytes);
    assert_eq!(read_mode(FileType::Csv), ReadMode::RawBytes);
    assert_eq!(read_mode(FileType::Image), ReadMode::Nothing);
    assert_eq!(read_mode(FileType::Unknown), ReadMode::Nothing);
}

#[test]
fn convert_text_file() {
    let r = convert("/tmp/a.txt", Source::Text("x\ny".to_string())).unwrap();
    assert_eq!(r.blocks, vec![para("x", plain()), para("y", plain())]);
}

#[test]
fn convert_zero_byte_text_has_no_body() {
    let r = convert("/tmp/empty.txt", Source::Text(String::new())).unwrap();
    assert_eq!(r.blocks, Vec::<Block>::new());
}

#[test]
fn convert_image_is_one_image_block() {
    let r = convert("/tmp/pic.png", Source::NoData).unwrap();
    assert_eq!(r.blocks, vec![Block::Image { path: "/tmp/pic.png".to_string() }]);
}

#[test]
fn convert_same_input_twice_same_blocks() {
    let a = convert("/tmp/a.md", Source::Text("# H\n\np `c` q".to_string())).unwrap();
    let b = convert("/tmp/a.md", Source::Text("# H\n\np `c` q".to_string())).unwrap();
    assert_eq!(a.blocks, b.blocks);
}

#[test]
fn docx_paragraph_texts_extracted() {
    let xml = "<document><body>\
        <p><r><t>Hello</t></r><r><t> World</t></r></p>\
        <p><r><t>Second</t></r></p>\
        </body></document>";
    let text = read_docx(&docx_bytes(xml)).unwrap();
    assert_eq!(text, "Hello World\nSecond\n");
}

#[test]
fn docx_ignores_text_outside_t_elements() {
    let xml = "<document><p><t>kept</t><q>dropped</q></p></document>";
    let text = read_docx(&docx_bytes(xml)).unwrap();
    assert_eq!(text, "kept\n");
}

#[test]
fn docx_converts_to_text_paragraphs() {
    let xml = "<document><p><t>One</t></p><p><t>Two</t></p></document>";
    let r = convert("/tmp/d.docx", Source::Bytes(docx_bytes(xml))).unwrap();
    assert_eq!(r.blocks, vec![para("One", plain()), para("Two", plain())]);
}

#[test]
fn docx_missing_member_fails() {
    let cursor = std::io::Cursor::new(Vec::new());
    let mut writer = zip::ZipWriter::new(cursor);
    let options = zip::write::SimpleFileOptions::default();
    writer.start_file("other.xml", options).unwrap();
    writer.write_all(b"<x/>").unwrap();
    let bytes = writer.finish().unwrap().into_inner();
    let r = convert("/tmp/d.docx", Source::Bytes(bytes));
    assert!(matches!(r, Err(ConvertError::DocxError(_))));
}

#[test]
fn docx_malformed_archive_fails() {
    let r = convert("/tmp/d.docx", Source::Bytes(b"not a zip".to_vec()));
    assert!(matches!(r, Err(ConvertError::DocxError(_))));
}

#[test]
fn docx_malformed_xml_fails() {
    let bytes = docx_bytes("<document><p>");
    let r = convert("/tmp/d.docx", Source::Bytes(bytes));
    assert!(matches!(r, Err(ConvertError::DocxError(_))));
}
