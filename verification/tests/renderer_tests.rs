use topdf::document::{Block, Color, Document, Style};
use topdf::render::{render_csv, render_csv_table, render_html, render_json, render_text, render_xml};

fn plain() -> Style {
    Style { bold: false, font_size: None, color: None }
}

fn bold() -> Style {
    Style { bold: true, font_size: None, color: None }
}

fn code() -> Style {
    Style { bold: false, font_size: Some(10), color: None }
}

fn para(text: &str, style: Style) -> Block {
    Block::Paragraph { text: text.to_string(), style }
}

#[test]
fn text_one_paragraph_per_line() {
    let mut doc = Document::new();
    render_text("one\ntwo\nthree", &mut doc);
    assert_eq!(doc.blocks, vec![para("one", plain()), para("two", plain()), para("three", plain())]);
}

#[test]
fn text_trailing_newline_opens_no_line() {
    let mut doc = Document::new();
    render_text("one\n", &mut doc);
    assert_eq!(doc.blocks, vec![para("one", plain())]);
}

#[test]
fn text_crlf_line_endings() {
    let mut doc = Document::new();
    render_text("one\r\ntwo", &mut doc);
    assert_eq!(doc.blocks, vec![para("one", plain()), para("two", plain())]);
}

#[test]
fn text_empty_input_yields_no_body() {
    let mut doc = Document::new();
    render_text("", &mut doc);
    assert_eq!(doc.blocks, Vec::<Block>::new());
}

#[test]
fn text_keeps_blank_middle_lines() {
    let mut doc = Document::new();
    render_text("a\n\nb", &mut doc);
    assert_eq!(doc.blocks, vec![para("a", plain()), para("", plain()), para("b", plain())]);
}

#[test]
fn json_pretty_prints_valid_input() {
    let mut doc = Document::new();
    render_json("{\"a\":1}", &mut doc);
    assert_eq!(
        doc.blocks,
        vec![
            para("JSON Content:", bold()),
            Block::Break { half_lines: 2 },
            para("{", code()),
            para("  \"a\": 1", code()),
            para("}", code()),
        ]
    );
}

#[test]
fn json_malformed_rendered_as_is() {
    let mut doc = Document::new();
    render_json("{not json", &mut doc);
    assert_eq!(
        doc.blocks,
        vec![
            para("JSON Content:", bold()),
            Block::Break { half_lines: 2 },
            para("{not json", code()),
        ]
    );
}

#[test]
fn json_null_is_reserialized() {
    let mut doc = Document::new();
    render_json(" null", &mut doc);
    assert_eq!(
        doc.blocks,
        vec![
            para("JSON Content:", bold()),
            Block::Break { half_lines: 2 },
            para("null", code()),
        ]
    );
}

#[test]
fn json_empty_input_keeps_header_only() {
    let mut doc = Document::new();
    render_json("", &mut doc);
    assert_eq!(
        doc.blocks,
        vec![para("JSON Content:", bold()), Block::Break { half_lines: 2 }]
    );
}

#[test]
fn xml_rendered_raw_under_header() {
    let mut doc = Document::new();
    render_xml("<a>\n<b/>\n</a>", &mut doc);
    assert_eq!(
        doc.blocks,
        vec![
            para("XML Content:", bold()),
            Block::Break { half_lines: 2 },
            para("<a>", code()),
            para("<b/>", code()),
            para("</a>", code()),
        ]
    );
}

#[test]
fn xml_empty_input_keeps_header_only() {
    let mut doc = Document::new();
    render_xml("", &mut doc);
    assert_eq!(
        doc.blocks,
        vec![para("XML Content:", bold()), Block::Break { half_lines: 2 }]
    );
}

#[test]
fn html_converted_to_plain_text() {
    let mut doc = Document::new();
    render_html("<html><body><p>Hi</p></body></html>", &mut doc);
    assert_eq!(doc.blocks.len(), 3);
    assert_eq!(doc.blocks[0], para("HTML Content:", bold()));
    assert_eq!(doc.blocks[1], Block::Break { half_lines: 2 });
    assert_eq!(doc.blocks[2], para("Hi", plain()));
}

#[test]
fn csv_header_bold_rows_code() {
    let mut doc = Document::new();
    let bytes = b"name,age\nAlice,30\nBob,25".to_vec();
    render_csv(&bytes, &mut doc);
    assert_eq!(
        doc.blocks,
        vec![
            para("CSV Content:", bold()),
            Block::Break { half_lines: 2 },
            para("name | age", bold()),
            para("Alice | 30", code()),
            para("Bob | 25", code()),
        ]
    );
}

#[test]
fn csv_table_rendered_from_parsed_rows() {
    let mut doc = Document::new();
    let headers = Some(vec!["name".to_string(), "age".to_string()]);
    let records = vec![
        vec!["Alice".to_string(), "30".to_string()],
        vec!["Bob".to_string(), "25".to_string()],
    ];
    render_csv_table(&headers, &records, &mut doc);
    assert_eq!(
        doc.blocks,
        vec![
            para("CSV Content:", bold()),
            Block::Break { half_lines: 2 },
            para("name | age", bold()),
            para("Alice | 30", code()),
            para("Bob | 25", code()),
        ]
    );
}

#[test]
fn csv_empty_input_keeps_header_label() {
    let mut doc = Document::new();
    let bytes = Vec::new();
    render_csv(&bytes, &mut doc);
    assert_eq!(doc.blocks[0], para("CSV Content:", bold()));
    assert_eq!(doc.blocks[1], Block::Break { half_lines: 2 });
}

#[test]
fn csv_single_column() {
    let mut doc = Document::new();
    let bytes = b"h\nv".to_vec();
    render_csv(&bytes, &mut doc);
    assert_eq!(
        doc.blocks,
        vec![
            para("CSV Content:", bold()),
            Block::Break { half_lines: 2 },
            para("h", bold()),
            para("v", code()),
        ]
    );
}

#[test]
fn error_style_is_red() {
    let style = Style { bold: false, font_size: None, color: Some(Color { red: 255, green: 0, blue: 0 }) };
    assert_eq!(style.color, Some(Color { red: 255, green: 0, blue: 0 }));
}
