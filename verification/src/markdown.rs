//! The Markdown renderer: a stream of parse events folded into blocks.
//!
//! A text buffer accumulates across events.  Paragraphs, headings and code
//! blocks emit the buffer when they end; every other construct is ignored,
//! though the text inside it still accumulates.

use vstd::prelude::*;
use pulldown_cmark::{Event, HeadingLevel, Parser, Tag, TagEnd};
use crate::document::{brk, para, BlockModel, Document, Style};
use crate::render::paras_of;
use crate::textlines::{spec_lines, split_lines};

verus! {

/// A Markdown heading level.
#[derive(Debug, Clone, Copy, PartialEq, Eq, Structural)]
pub enum HeadingKind {
    H1,
    H2,
    H3,
    H4,
    H5,
    H6,
}

/// The mathematical value of one Markdown event.
pub enum MdEventModel {
    Text(Seq<char>),
    Code(Seq<char>),
    SoftBreak,
    HardBreak,
    ParagraphStart,
    ParagraphEnd,
    HeadingStart,
    HeadingEnd(HeadingKind),
    CodeBlockStart,
    CodeBlockEnd,
    Other,
}

/// One Markdown parse event, reduced to what the renderer reads.  Events of
/// constructs the renderer ignores are kept as `Other` so that the stream's
/// shape is preserved.
#[derive(Debug, Clone, PartialEq)]
pub enum MdEvent {
    Text(String),
    Code(String),
    SoftBreak,
    HardBreak,
    ParagraphStart,
    ParagraphEnd,
    HeadingStart,
    HeadingEnd(HeadingKind),
    CodeBlockStart,
    CodeBlockEnd,
    Other,
}

impl DeepView for MdEvent {
    type V = MdEventModel;

    open spec fn deep_view(&self) -> MdEventModel {
        match self {
            MdEvent::Text(t) => MdEventModel::Text(t@),
            MdEvent::Code(t) => MdEventModel::Code(t@),
            MdEvent::SoftBreak => MdEventModel::SoftBreak,
            MdEvent::HardBreak => MdEventModel::HardBreak,
            MdEvent::ParagraphStart => MdEventModel::ParagraphStart,
            MdEvent::ParagraphEnd => MdEventModel::ParagraphEnd,
            MdEvent::HeadingStart => MdEventModel::HeadingStart,
            MdEvent::HeadingEnd(k) => MdEventModel::HeadingEnd(*k),
            MdEvent::CodeBlockStart => MdEventModel::CodeBlockStart,
            MdEvent::CodeBlockEnd => MdEventModel::CodeBlockEnd,
            MdEvent::Other => MdEventModel::Other,
        }
    }
}

#[verifier::external_type_specification]
#[verifier::external_body]
pub struct ExHeadingLevel(HeadingLevel);

/// Relies on pulldown_cmark::HeadingLevel: its six levels, told apart.
#[verifier::external_body]
fn heading_kind(l: HeadingLevel) -> HeadingKind {
    match l {
        HeadingLevel::H1 => HeadingKind::H1,
        HeadingLevel::H2 => HeadingKind::H2,
        HeadingLevel::H3 => HeadingKind::H3,
        HeadingLevel::H4 => HeadingKind::H4,
        HeadingLevel::H5 => HeadingKind::H5,
        HeadingLevel::H6 => HeadingKind::H6,
    }
}

/// What parsing Markdown returns: the event stream of the content, a
/// function of the content alone.
pub uninterp spec fn md_events_of(s: Seq<char>) -> Seq<MdEventModel>;

/// Relies on pulldown_cmark::Parser: the Markdown event stream of the
/// content, with default options, in order.
#[verifier::external_body]
fn md_events(content: &str) -> (r: Vec<MdEvent>)
    ensures
        r.deep_view() == md_events_of(content@),
{
    Parser::new(content).map(|e| match e {
        Event::Text(t) => MdEvent::Text(t.to_string()),
        Event::Code(t) => MdEvent::Code(t.to_string()),
        Event::SoftBreak => MdEvent::SoftBreak,
        Event::HardBreak => MdEvent::HardBreak,
        Event::Start(Tag::Paragraph) => MdEvent::ParagraphStart,
        Event::End(TagEnd::Paragraph) => MdEvent::ParagraphEnd,
        Event::Start(Tag::Heading { .. }) => MdEvent::HeadingStart,
        Event::End(TagEnd::Heading(l)) => MdEvent::HeadingEnd(heading_kind(l)),
        Event::Start(Tag::CodeBlock(_)) => MdEvent::CodeBlockStart,
        Event::End(TagEnd::CodeBlock) => MdEvent::CodeBlockEnd,
        _ => MdEvent::Other,
    }).collect()
}

/// Font size of a heading: 20 for H1, 18 for H2, 14 below.
pub open spec fn heading_size(k: HeadingKind) -> u8 {
    match k {
        HeadingKind::H1 => 20,
        HeadingKind::H2 => 18,
        _ => 14,
    }
}

/// Font size of a heading, as the renderer sets it.
pub fn heading_font_size(k: HeadingKind) -> (r: u8)
    ensures
        r == heading_size(k),
{
    match k {
        HeadingKind::H1 => 20,
        HeadingKind::H2 => 18,
        _ => 14,
    }
}

/// One event applied to the renderer state: the blocks emitted so far and
/// the text buffer.
pub open spec fn md_step(blocks: Seq<BlockModel>, buf: Seq<char>, e: MdEventModel) -> (
    Seq<BlockModel>,
    Seq<char>,
) {
    match e {
        MdEventModel::Text(t) => (blocks, buf + t),
        MdEventModel::Code(t) => (blocks, buf + " "@ + t + " "@),
        MdEventModel::SoftBreak => (blocks, buf + " "@),
        MdEventModel::HardBreak => (blocks, buf + "\n"@),
        MdEventModel::ParagraphStart => (blocks, Seq::empty()),
        MdEventModel::ParagraphEnd => if buf.len() > 0 {
            (blocks + seq![para(buf, Style::spec_plain()), brk(1)], Seq::empty())
        } else {
            (blocks, Seq::empty())
        },
        MdEventModel::HeadingStart => (blocks, Seq::empty()),
        MdEventModel::HeadingEnd(k) => (
            blocks + seq![para(buf, Style::spec_heading(heading_size(k))), brk(1)],
            Seq::empty(),
        ),
        MdEventModel::CodeBlockStart => (blocks, Seq::empty()),
        MdEventModel::CodeBlockEnd => (
            blocks + paras_of(spec_lines(buf), Style::spec_code()) + seq![brk(1)],
            Seq::empty(),
        ),
        MdEventModel::Other => (blocks, buf),
    }
}

/// The events applied in order.
pub open spec fn md_run(blocks: Seq<BlockModel>, buf: Seq<char>, events: Seq<MdEventModel>) -> (
    Seq<BlockModel>,
    Seq<char>,
)
    decreases events.len(),
{
    if events.len() == 0 {
        (blocks, buf)
    } else {
        let m = md_run(blocks, buf, events.drop_last());
        md_step(m.0, m.1, events.last())
    }
}

/// The blocks of Markdown content: the event stream folded through
/// `md_step`, with a trailing non-empty buffer emitted as a final body
/// paragraph.
pub open spec fn spec_render_markdown(events: Seq<MdEventModel>) -> Seq<BlockModel> {
    let m = md_run(Seq::empty(), Seq::empty(), events);
    if m.1.len() > 0 {
        m.0 + seq![para(m.1, Style::spec_plain())]
    } else {
        m.0
    }
}

/// Render Markdown content: parse it to events and fold them into blocks.
#[verifier::loop_isolation(false)]
pub fn render_markdown(content: &str, doc: &mut Document)
    ensures
        final(doc).deep_view() == old(doc).deep_view() + spec_render_markdown(
            md_events_of(content@),
        ),
{
    let events = md_events(content);
    let mut buf = String::new();
    let mut k: usize = 0;
    while k < events.len()
        invariant
            k <= events.len(),
            ({
                let m = md_run(Seq::empty(), Seq::empty(), events.deep_view().take(k as int));
                doc.deep_view() =~= old(doc).deep_view() + m.0 && buf@ == m.1
            }),
        decreases events.len() - k,
    {
        proof {
            assert(events.deep_view().take(k + 1).drop_last() =~= events.deep_view().take(
                k as int,
            ));
            assert(events.deep_view().take(k + 1).last() == events.deep_view()[k as int]);
        }
        match &events[k] {
            MdEvent::Text(t) => {
                buf.append(t.as_str());
            },
            MdEvent::Code(t) => {
                buf.append(" ");
                buf.append(t.as_str());
                buf.append(" ");
            },
            MdEvent::SoftBreak => {
                buf.append(" ");
            },
            MdEvent::HardBreak => {
                buf.append("\n");
            },
            MdEvent::ParagraphStart => {
                buf = String::new();
            },
            MdEvent::ParagraphEnd => {
                if !buf.as_str().is_empty() {
                    doc.push_paragraph(buf.clone(), Style::plain());
                    doc.push_break(1);
                }
                buf = String::new();
            },
            MdEvent::HeadingStart => {
                buf = String::new();
            },
            MdEvent::HeadingEnd(h) => {
                let size = heading_font_size(*h);
                doc.push_paragraph(buf.clone(), Style::heading(size));
                doc.push_break(1);
                buf = String::new();
            },
            MdEvent::CodeBlockStart => {
                buf = String::new();
            },
            MdEvent::CodeBlockEnd => {
                let lines = split_lines(buf.as_str());
                crate::render::push_line_paras(doc, &lines, Style::code());
                doc.push_break(1);
                buf = String::new();
            },
            MdEvent::Other => {},
        }
        k = k + 1;
    }
    proof {
        assert(events.deep_view().take(events.deep_view().len() as int) =~= events.deep_view());
    }
    if !buf.as_str().is_empty() {
        doc.push_paragraph(buf, Style::plain());
    }
    proof {
        assert(final(doc).deep_view() =~= old(doc).deep_view() + spec_render_markdown(
            md_events_of(content@),
        ));
    }
}

} // verus!
