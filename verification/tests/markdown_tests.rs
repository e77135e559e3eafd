use topdf::document::{Block, Document, Style};
use topdf::markdown::render_markdown;

fn plain() -> Style {
    Style { bold: false, font_size: None, color: None }
}

fn heading(size: u8) -> Style {
    Style { bold: true, font_size: Some(size), color: None }
}

fn code() -> Style {
    Style { bold: false, font_size: Some(10), color: None }
}

fn para(text: &str, style: Style) -> Block {
    Block::Paragraph { text: text.to_string(), style }
}

#[test]
fn heading_then_paragraph() {
    let mut doc = Document::new();
    render_markdown("# Title\n\nA paragraph.", &mut doc);
    assert_eq!(
        doc.blocks,
        vec![
            para("Title", heading(20)),
            Block::Break { half_lines: 1 },
            para("A paragraph.", plain()),
            Block::Break { half_lines: 1 },
        ]
    );
}

#[test]
fn heading_sizes_by_level() {
    let mut doc = Document::new();
    render_markdown("# One\n\n## Two\n\n### Three\n\n###### Six", &mut doc);
    assert_eq!(
        doc.blocks,
        vec![
            para("One", heading(20)),
            Block::Break { half_lines: 1 },
            para("Two", heading(18)),
            Block::Break { half_lines: 1 },
            para("Three", heading(14)),
            Block::Break { half_lines: 1 },
            para("Six", heading(14)),
            Block::Break { half_lines: 1 },
        ]
    );
}

#[test]
fn soft_break_becomes_space() {
    let mut doc = Document::new();
    render_markdown("line one\nline two", &mut doc);
    assert_eq!(
        doc.blocks,
        vec![para("line one line two", plain()), Block::Break { half_lines: 1 }]
    );
}

#[test]
fn inline_code_space_padded() {
    let mut doc = Document::new();
    render_markdown("use `foo` here", &mut doc);
    assert_eq!(
        doc.blocks,
        vec![para("use  foo  here", plain()), Block::Break { half_lines: 1 }]
    );
}

#[test]
fn code_block_lines_at_code_size() {
    let mut doc = Document::new();
    render_markdown("```\nlet a = 1;\nlet b = 2;\n```", &mut doc);
    assert_eq!(
        doc.blocks,
        vec![
            para("let a = 1;", code()),
            para("let b = 2;", code()),
            Block::Break { half_lines: 1 },
        ]
    );
}

#[test]
fn empty_markdown_gives_no_blocks() {
    let mut doc = Document::new();
    render_markdown("", &mut doc);
    assert_eq!(doc.blocks, Vec::<Block>::new());
}

#[test]
fn list_text_accumulates_into_run_on_paragraph() {
    let mut doc = Document::new();
    render_markdown("- alpha\n- beta", &mut doc);
    // List structure is ignored; only the text events accumulate, and the
    // trailing buffer is emitted as one final body paragraph.
    assert_eq!(doc.blocks, vec![para("alphabeta", plain())]);
}

#[test]
fn markdown_twice_renders_identically() {
    let input = "# T\n\nbody `c` end\n\n```\nx\n```";
    let mut d1 = Document::new();
    let mut d2 = Document::new();
    render_markdown(input, &mut d1);
    render_markdown(input, &mut d2);
    assert_eq!(d1.blocks, d2.blocks);
}
