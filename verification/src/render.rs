//! Renderers: one per content kind, each appending blocks to the document.
//!
//! Section headers are bold paragraphs followed by a one-line break; bodies
//! of JSON, XML and CSV rows are set at the code font size, one paragraph per
//! line or record.

use vstd::prelude::*;
use crate::document::{brk, para, BlockModel, Document, Style};
use crate::textlines::{spec_lines, split_lines};

verus! {

/// Column width at which HTML is laid out as plain text.
pub const HTML_WIDTH: usize = 80;

/// Lines rendered as paragraphs of one style.
pub open spec fn paras_of(lines: Seq<Seq<char>>, style: Style) -> Seq<BlockModel> {
    lines.map_values(|l: Seq<char>| para(l, style))
}

/// The blocks of plain text content: one body paragraph per line, in order.
pub open spec fn spec_render_text(s: Seq<char>) -> Seq<BlockModel> {
    paras_of(spec_lines(s), Style::spec_plain())
}

/// The blocks of XML content: a bold header, a break, then the raw content
/// line by line at code size.  No reformatting is attempted.
pub open spec fn spec_render_xml(s: Seq<char>) -> Seq<BlockModel> {
    seq![para("XML Content:"@, Style::spec_bold()), brk(2)] + paras_of(
        spec_lines(s),
        Style::spec_code(),
    )
}

/// What pretty-printing JSON text returns: the re-serialized value with
/// pretty indentation when the text parses strictly, nothing when it does
/// not parse.
pub uninterp spec fn json_pretty_of(s: Seq<char>) -> Option<Seq<char>>;

/// Relies on serde_json::from_str and serde_json::to_string_pretty: a strict
/// parse followed by pretty re-serialization, a function of the text alone.
/// Text that does not parse yields nothing, and the caller keeps the
/// original.
#[verifier::external_body]
fn json_pretty(content: &str) -> (r: Option<String>)
    ensures
        (r is Some) == (json_pretty_of(content@) is Some),
        r matches Some(p) ==> json_pretty_of(content@) == Some(p@),
{
    match serde_json::from_str::<serde_json::Value>(content) {
        Ok(v) => serde_json::to_string_pretty(&v).ok(),
        Err(_) => None,
    }
}

/// The blocks of JSON content: a bold header, a break, then the body line by
/// line at code size.  The body is the pretty-printed value when the content
/// parses, the original content otherwise.
pub open spec fn spec_render_json(s: Seq<char>) -> Seq<BlockModel> {
    let body = match json_pretty_of(s) {
        Option::Some(p) => p,
        Option::None => s,
    };
    seq![para("JSON Content:"@, Style::spec_bold()), brk(2)] + paras_of(
        spec_lines(body),
        Style::spec_code(),
    )
}

/// What laying HTML out as plain text returns: the text at the given column
/// width, a function of the content and the width alone; nothing when the
/// content cannot be parsed.
pub uninterp spec fn html_text_of(s: Seq<char>, width: int) -> Option<Seq<char>>;

/// Relies on html2text::from_read: the HTML byte stream laid out as plain
/// text wrapped at `width` columns.
#[verifier::external_body]
fn html_to_text(content: &str, width: usize) -> (r: Option<String>)
    ensures
        (r is Some) == (html_text_of(content@, width as int) is Some),
        r matches Some(t) ==> html_text_of(content@, width as int) == Some(t@),
{
    html2text::from_read(content.as_bytes(), width).ok()
}

/// The blocks of HTML content: a bold header, a break, then the plain-text
/// conversion rendered as text, or a red failure paragraph when the
/// conversion fails.
pub open spec fn spec_render_html(s: Seq<char>) -> Seq<BlockModel> {
    seq![para("HTML Content:"@, Style::spec_bold()), brk(2)] + (match html_text_of(
        s,
        HTML_WIDTH as int,
    ) {
        Option::Some(t) => spec_render_text(t),
        Option::None => seq![para("Failed to parse HTML"@, Style::spec_error())],
    })
}

/// What the CSV reader yields from the bytes: the header row, if the first
/// record parses, and the remaining records, each a row of fields.  Rows
/// that fail to parse are left out.
pub uninterp spec fn csv_table_of(b: Seq<u8>) -> (Option<Seq<Seq<char>>>, Seq<Seq<Seq<char>>>);

/// Relies on csv::Reader: a header-aware reader over the bytes; `headers`
/// yields the first record and `records` the rest, in order, skipping
/// records it reports as errors.  Both are functions of the bytes alone.
#[verifier::external_body]
fn csv_parse(bytes: &Vec<u8>) -> (r: (Option<Vec<String>>, Vec<Vec<String>>))
    ensures
        r.0.deep_view() == csv_table_of(bytes@).0,
        r.1.deep_view() == csv_table_of(bytes@).1,
{
    let mut rd = csv::Reader::from_reader(bytes.as_slice());
    let headers = rd.headers().ok().map(|h| h.iter().map(|f| f.to_string()).collect());
    let records = rd.records().filter_map(|x| x.ok()).map(
        |rec| rec.iter().map(|f| f.to_string()).collect(),
    ).collect();
    (headers, records)
}

/// Fields joined with `" | "`.
pub open spec fn spec_join(fs: Seq<Seq<char>>) -> Seq<char>
    decreases fs.len(),
{
    if fs.len() == 0 {
        Seq::empty()
    } else if fs.len() == 1 {
        fs[0]
    } else {
        fs[0] + " | "@ + spec_join(fs.skip(1))
    }
}

/// Joining one more field appends a separator and the field.
proof fn lemma_join_push(fs: Seq<Seq<char>>, f: Seq<char>)
    ensures
        spec_join(fs.push(f)) == if fs.len() == 0 {
            f
        } else {
            spec_join(fs) + " | "@ + f
        },
    decreases fs.len(),
{
    let g = fs.push(f);
    if fs.len() == 0 {
        assert(g.len() == 1);
        assert(g[0] == f);
    } else if fs.len() == 1 {
        assert(g.skip(1) =~= seq![f]);
        assert(spec_join(g.skip(1)) == f);
        assert(g[0] == fs[0]);
        assert(spec_join(fs) == fs[0]);
    } else {
        assert(g.skip(1) =~= fs.skip(1).push(f));
        lemma_join_push(fs.skip(1), f);
        assert(g[0] == fs[0]);
        assert(fs[0] + " | "@ + (spec_join(fs.skip(1)) + " | "@ + f) =~= (fs[0] + " | "@
            + spec_join(fs.skip(1))) + " | "@ + f);
    }
}

/// The blocks of CSV content: a bold header label, a break, the header row
/// joined with `" | "` as one bold paragraph when present, then each record
/// joined the same way as one paragraph at code size.
pub open spec fn spec_render_csv(t: (Option<Seq<Seq<char>>>, Seq<Seq<Seq<char>>>)) -> Seq<
    BlockModel,
> {
    seq![para("CSV Content:"@, Style::spec_bold()), brk(2)] + (match t.0 {
        Option::Some(h) => seq![para(spec_join(h), Style::spec_bold())],
        Option::None => Seq::empty(),
    }) + t.1.map_values(|row: Seq<Seq<char>>| para(spec_join(row), Style::spec_code()))
}

/// The fields of one row joined with `" | "`.
#[verifier::loop_isolation(false)]
fn join_fields(fields: &Vec<String>) -> (r: String)
    ensures
        r@ == spec_join(fields.deep_view()),
{
    let mut out = String::new();
    let mut k: usize = 0;
    while k < fields.len()
        invariant
            k <= fields.len(),
            out@ == spec_join(fields.deep_view().take(k as int)),
        decreases fields.len() - k,
    {
        proof {
            lemma_join_push(fields.deep_view().take(k as int), fields.deep_view()[k as int]);
            assert(fields.deep_view().take(k as int).push(fields.deep_view()[k as int])
                =~= fields.deep_view().take(k + 1));
        }
        if k > 0 {
            out.append(" | ");
        }
        out.append(fields[k].as_str());
        k = k + 1;
    }
    proof {
        assert(fields.deep_view().take(fields.deep_view().len() as int) =~= fields.deep_view());
    }
    out
}

/// Append one paragraph per line, all of one style.
#[verifier::loop_isolation(false)]
pub(crate) fn push_line_paras(doc: &mut Document, lines: &Vec<String>, style: Style)
    ensures
        final(doc).deep_view() == old(doc).deep_view() + paras_of(lines.deep_view(), style),
{
    let mut k: usize = 0;
    while k < lines.len()
        invariant
            k <= lines.len(),
            doc.deep_view() =~= old(doc).deep_view() + paras_of(
                lines.deep_view().take(k as int),
                style,
            ),
        decreases lines.len() - k,
    {
        let line = lines[k].clone();
        doc.push_paragraph(line, style);
        proof {
            assert(lines.deep_view().take(k + 1) =~= lines.deep_view().take(k as int).push(
                lines.deep_view()[k as int],
            ));
            assert(paras_of(lines.deep_view().take(k + 1), style) =~= paras_of(
                lines.deep_view().take(k as int),
                style,
            ).push(para(lines.deep_view()[k as int], style)));
        }
        k = k + 1;
    }
    proof {
        assert(lines.deep_view().take(lines.deep_view().len() as int) =~= lines.deep_view());
        assert(final(doc).deep_view() =~= old(doc).deep_view() + paras_of(
            lines.deep_view(),
            style,
        ));
    }
}

/// Render plain text or extracted DOCX text: one body paragraph per line.
pub fn render_text(content: &str, doc: &mut Document)
    ensures
        final(doc).deep_view() == old(doc).deep_view() + spec_render_text(content@),
{
    let lines = split_lines(content);
    push_line_paras(doc, &lines, Style::plain());
}

/// Render XML content: header, break, raw lines at code size.
pub fn render_xml(content: &str, doc: &mut Document)
    ensures
        final(doc).deep_view() == old(doc).deep_view() + spec_render_xml(content@),
{
    doc.push_paragraph("XML Content:".to_owned(), Style::bold_header());
    doc.push_break(2);
    let lines = split_lines(content);
    push_line_paras(doc, &lines, Style::code());
    proof {
        assert(final(doc).deep_view() =~= old(doc).deep_view() + spec_render_xml(content@));
    }
}

/// Render JSON content: header, break, then the pretty-printed value when
/// the content parses strictly, the original content otherwise, line by line
/// at code size.
pub fn render_json(content: &str, doc: &mut Document)
    ensures
        final(doc).deep_view() == old(doc).deep_view() + spec_render_json(content@),
{
    let body: String = match json_pretty(content) {
        Option::Some(p) => p,
        Option::None => content.to_owned(),
    };
    doc.push_paragraph("JSON Content:".to_owned(), Style::bold_header());
    doc.push_break(2);
    let lines = split_lines(body.as_str());
    push_line_paras(doc, &lines, Style::code());
    proof {
        assert(final(doc).deep_view() =~= old(doc).deep_view() + spec_render_json(content@));
    }
}

/// Render HTML content: header, break, then the plain-text conversion as
/// body paragraphs, or a red failure paragraph.
pub fn render_html(content: &str, doc: &mut Document)
    ensures
        final(doc).deep_view() == old(doc).deep_view() + spec_render_html(content@),
{
    doc.push_paragraph("HTML Content:".to_owned(), Style::bold_header());
    doc.push_break(2);
    match html_to_text(content, HTML_WIDTH) {
        Option::Some(text) => {
            let lines = split_lines(text.as_str());
            push_line_paras(doc, &lines, Style::plain());
        },
        Option::None => {
            doc.push_paragraph("Failed to parse HTML".to_owned(), Style::error_red());
        },
    }
    proof {
        assert(final(doc).deep_view() =~= old(doc).deep_view() + spec_render_html(content@));
    }
}

/// Render CSV content from the file's bytes: the bytes are parsed once and
/// the table rendered with `render_csv_table`.
pub fn render_csv(bytes: &Vec<u8>, doc: &mut Document)
    ensures
        final(doc).deep_view() == old(doc).deep_view() + spec_render_csv(csv_table_of(bytes@)),
{
    let (headers, records) = csv_parse(bytes);
    render_csv_table(&headers, &records, doc);
}

/// Render a parsed CSV table: header label, break, the header row joined
/// with `" | "` in bold when present, then each record joined the same way
/// at code size.
#[verifier::loop_isolation(false)]
pub fn render_csv_table(headers: &Option<Vec<String>>, records: &Vec<Vec<String>>, doc: &mut Document)
    ensures
        final(doc).deep_view() == old(doc).deep_view() + spec_render_csv(
            (headers.deep_view(), records.deep_view()),
        ),
{
    doc.push_paragraph("CSV Content:".to_owned(), Style::bold_header());
    doc.push_break(2);
    if let Option::Some(h) = &headers {
        let line = join_fields(h);
        doc.push_paragraph(line, Style::bold_header());
    }
    let ghost mid = doc.deep_view();
    let mut k: usize = 0;
    while k < records.len()
        invariant
            k <= records.len(),
            doc.deep_view() =~= mid + records.deep_view().take(k as int).map_values(
                |row: Seq<Seq<char>>| para(spec_join(row), Style::spec_code()),
            ),
        decreases records.len() - k,
    {
        let line = join_fields(&records[k]);
        doc.push_paragraph(line, Style::code());
        proof {
            assert(records.deep_view().take(k + 1) =~= records.deep_view().take(k as int).push(
                records.deep_view()[k as int],
            ));
            assert(records.deep_view().take(k + 1).map_values(
                |row: Seq<Seq<char>>| para(spec_join(row), Style::spec_code()),
            ) =~= records.deep_view().take(k as int).map_values(
                |row: Seq<Seq<char>>| para(spec_join(row), Style::spec_code()),
            ).push(para(spec_join(records.deep_view()[k as int]), Style::spec_code())));
        }
        k = k + 1;
    }
    proof {
        assert(records.deep_view().take(records.deep_view().len() as int)
            =~= records.deep_view());
        assert(final(doc).deep_view() =~= old(doc).deep_view() + spec_render_csv(
            (headers.deep_view(), records.deep_view()),
        ));
    }
}

} // verus!
