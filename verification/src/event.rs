//! The events of a Markdown text, as plain values, and the tokenizer that
//! yields them.
//!
//! The tokenizer is `pulldown_cmark`. Its events hold borrowed text and
//! types of its own; here each becomes a value of this library, variant by
//! variant, with the fields that rendering reads.

use pulldown_cmark::{Alignment, CodeBlockKind, Event, Options, Parser, Tag};
use vstd::prelude::*;

verus! {

/// How the cells of a table column are aligned.
#[derive(Clone, Copy, Debug, PartialEq, Eq, Structural)]
pub enum Align {
    Unset,
    Left,
    Center,
    Right,
}

/// The level of a heading.
#[derive(Clone, Copy, Debug, PartialEq, Eq, Structural)]
pub enum HeadingRank {
    H1,
    H2,
    H3,
    H4,
    H5,
    H6,
}

/// How a code block was written.
#[derive(Clone, Debug, PartialEq, Eq)]
pub enum CodeKind {
    Indented,
    /// Between fences; the text behind the opening fence says the language.
    Fenced(String),
}

/// A construct that is opened by one event and closed by another.
#[derive(Clone, Debug, PartialEq, Eq)]
pub enum MdTag {
    Paragraph,
    Heading(HeadingRank),
    BlockQuote,
    CodeBlock(CodeKind),
    /// A list: ordered from the given number, or unordered.
    List(Option<u64>),
    Item,
    FootnoteDefinition(String),
    /// A table, with the alignment of each column.
    Table(Vec<Align>),
    TableHead,
    TableRow,
    TableCell,
    Emphasis,
    Strong,
    Strikethrough,
    Link { dest: String, title: String },
    Image { dest: String, title: String },
}

/// One event of the stream that a Markdown text is read as.
#[derive(Clone, Debug, PartialEq, Eq)]
pub enum MdEvent {
    Start(MdTag),
    End(MdTag),
    Text(String),
    Code(String),
    Html(String),
    FootnoteReference(String),
    SoftBreak,
    HardBreak,
    Rule,
    TaskListMarker(bool),
    /// An event or a construct that this library has no name for.
    Other,
}

/// Tokenizer option: tables.
pub const ENABLE_TABLES: u32 = 0x02;

/// Tokenizer option: footnotes.
pub const ENABLE_FOOTNOTES: u32 = 0x04;

/// Tokenizer option: strikethrough.
pub const ENABLE_STRIKETHROUGH: u32 = 0x08;

/// Tokenizer option: task lists.
pub const ENABLE_TASKLISTS: u32 = 0x10;

/// Tokenizer option: typographic quotes, dashes and ellipses.
pub const ENABLE_SMART_PUNCTUATION: u32 = 0x20;

/// `pulldown_cmark::Event`, carried through as it is.
#[verifier::external_type_specification]
#[verifier::external_body]
pub struct ExEvent<'a>(Event<'a>);

/// `pulldown_cmark::Tag`, carried through as it is.
#[verifier::external_type_specification]
#[verifier::external_body]
pub struct ExTag<'a>(Tag<'a>);

/// `pulldown_cmark::CodeBlockKind`, carried through as it is.
#[verifier::external_type_specification]
#[verifier::external_body]
pub struct ExCodeBlockKind<'a>(CodeBlockKind<'a>);

#[verifier::external_type_specification]
#[verifier::external_body]
pub struct ExHeadingRank(pulldown_cmark::HeadingLevel);

/// `pulldown_cmark::Alignment`, carried through as it is.
#[verifier::external_type_specification]
#[verifier::external_body]
pub struct ExAlignment(Alignment);

/// A tokenizer event taken apart: its variant, with the text owned and the
/// tag still as the tokenizer gave it.
enum RawEvent<'a> {
    Start(Tag<'a>),
    End(Tag<'a>),
    Text(String),
    Code(String),
    Html(String),
    FootnoteReference(String),
    SoftBreak,
    HardBreak,
    Rule,
    TaskListMarker(bool),
}

/// A tokenizer tag that has fields, taken apart: its variant, with the
/// text owned and the other fields still as the tokenizer gave them.
enum RawTag<'a> {
    Heading(pulldown_cmark::HeadingLevel),
    CodeBlock(CodeBlockKind<'a>),
    List(Option<u64>),
    FootnoteDefinition(String),
    Table(Vec<Alignment>),
    Link(String, String),
    Image(String, String),
}

/// The events that the tokenizer reads `src` as, under the option bits
/// `options`.
pub uninterp spec fn markdown_events(src: Seq<char>, options: u32) -> Seq<MdEvent>;

/// Runs `pulldown_cmark::Parser::new_ext` on `src`, with the options whose
/// bits are set in `options`, to its end, and converts each event.
///
/// The tokenizer reads nothing but its arguments, so its events are a
/// function of them; the contract gives that function a name and says
/// nothing of what the events are.
#[verifier::external_body]
pub(crate) fn tokenize(src: &str, options: u32) -> (events: Vec<MdEvent>)
    ensures
        events@ == markdown_events(src@, options),
{
    Parser::new_ext(src, Options::from_bits_truncate(options)).map(|event| convert_event(event)).collect()
}

/// The HTML that the tokenizer's own renderer writes for `src`, under the
/// option bits `options`.
pub uninterp spec fn markdown_html(src: Seq<char>, options: u32) -> Seq<char>;

/// Runs `pulldown_cmark::html::push_html` on the events of
/// `pulldown_cmark::Parser::new_ext` for `src`, with the options whose bits
/// are set in `options`, into an empty string.
///
/// What is written depends on the arguments alone; the contract gives it
/// a name and says nothing of what it is.
#[verifier::external_body]
pub(crate) fn push_html(src: &str, options: u32) -> (html: String)
    ensures
        html@ == markdown_html(src@, options),
{
    let mut html = String::new();
    pulldown_cmark::html::push_html(
        &mut html,
        Parser::new_ext(src, Options::from_bits_truncate(options)),
    );
    html
}

/// Tells the variants of `pulldown_cmark::Event` apart. Nothing is claimed
/// of which variant an event has.
#[verifier::external_body]
fn open_event<'a>(event: Event<'a>) -> RawEvent<'a> {
    match event {
        Event::Start(tag) => RawEvent::Start(tag),
        Event::End(tag) => RawEvent::End(tag),
        Event::Text(text) => RawEvent::Text(text.into_string()),
        Event::Code(text) => RawEvent::Code(text.into_string()),
        Event::Html(text) => RawEvent::Html(text.into_string()),
        Event::FootnoteReference(name) => RawEvent::FootnoteReference(name.into_string()),
        Event::SoftBreak => RawEvent::SoftBreak,
        Event::HardBreak => RawEvent::HardBreak,
        Event::Rule => RawEvent::Rule,
        Event::TaskListMarker(checked) => RawEvent::TaskListMarker(checked),
    }
}

/// Tells apart the variants of `pulldown_cmark::Tag` that have fields, and
/// hands any other tag back.
#[verifier::external_body]
fn tag_with_fields<'a>(tag: Tag<'a>) -> Result<RawTag<'a>, Tag<'a>> {
    match tag {
        Tag::Heading(level, _, _) => Ok(RawTag::Heading(level)),
        Tag::CodeBlock(kind) => Ok(RawTag::CodeBlock(kind)),
        Tag::List(start) => Ok(RawTag::List(start)),
        Tag::FootnoteDefinition(name) => Ok(RawTag::FootnoteDefinition(name.into_string())),
        Tag::Table(aligns) => Ok(RawTag::Table(aligns)),
        Tag::Link(_, dest, title) => Ok(RawTag::Link(dest.into_string(), title.into_string())),
        Tag::Image(_, dest, title) => Ok(RawTag::Image(dest.into_string(), title.into_string())),
        other => Err(other),
    }
}

/// Tells apart the variants of `pulldown_cmark::Tag` that have no field;
/// `None` for any other tag.
#[verifier::external_body]
fn tag_without_fields(tag: Tag<'_>) -> Option<MdTag> {
    match tag {
        Tag::Paragraph => Some(MdTag::Paragraph),
        Tag::BlockQuote => Some(MdTag::BlockQuote),
        Tag::Item => Some(MdTag::Item),
        Tag::TableHead => Some(MdTag::TableHead),
        Tag::TableRow => Some(MdTag::TableRow),
        Tag::TableCell => Some(MdTag::TableCell),
        Tag::Emphasis => Some(MdTag::Emphasis),
        Tag::Strong => Some(MdTag::Strong),
        Tag::Strikethrough => Some(MdTag::Strikethrough),
        _ => None,
    }
}

/// Tells the variants of `pulldown_cmark::HeadingLevel` apart.
#[verifier::external_body]
fn heading_rank(level: pulldown_cmark::HeadingLevel) -> HeadingRank {
    match level {
        pulldown_cmark::HeadingLevel::H1 => HeadingRank::H1,
        pulldown_cmark::HeadingLevel::H2 => HeadingRank::H2,
        pulldown_cmark::HeadingLevel::H3 => HeadingRank::H3,
        pulldown_cmark::HeadingLevel::H4 => HeadingRank::H4,
        pulldown_cmark::HeadingLevel::H5 => HeadingRank::H5,
        pulldown_cmark::HeadingLevel::H6 => HeadingRank::H6,
    }
}

/// Tells the variants of `pulldown_cmark::CodeBlockKind` apart.
#[verifier::external_body]
fn code_kind(kind: CodeBlockKind<'_>) -> CodeKind {
    match kind {
        CodeBlockKind::Indented => CodeKind::Indented,
        CodeBlockKind::Fenced(info) => CodeKind::Fenced(info.into_string()),
    }
}

/// Tells the variants of `pulldown_cmark::Alignment` apart.
#[verifier::external_body]
fn alignment(align: &Alignment) -> Align {
    match align {
        Alignment::None => Align::Unset,
        Alignment::Left => Align::Left,
        Alignment::Center => Align::Center,
        Alignment::Right => Align::Right,
    }
}

/// The alignments of a table's columns, one for one: as many as there are
/// columns, each what `alignment` tells of the column at its place.
fn convert_alignments(aligns: &Vec<Alignment>) -> (r: Vec<Align>)
    ensures
        r@.len() == aligns@.len(),
{
    let mut r: Vec<Align> = Vec::new();
    let mut i: usize = 0;
    while i < aligns.len()
        invariant
            i <= aligns@.len(),
            r@.len() == i,
        decreases aligns@.len() - i,
    {
        r.push(alignment(&aligns[i]));
        i = i + 1;
    }
    r
}

/// What a tag with fields becomes, once it is taken apart: the same
/// construct with the same start number, name, destination and title. The
/// rank of a heading, the kind of a code block and the alignments of a
/// table are what the tokenizer's own values are told to be; of them only
/// the construct is known here, and that a table keeps its number of columns.
fn tag_of(raw: RawTag<'_>) -> (r: MdTag)
    ensures
        match raw {
            RawTag::Heading(_) => r is Heading,
            RawTag::CodeBlock(_) => r is CodeBlock,
            RawTag::List(start) => r == MdTag::List(start),
            RawTag::FootnoteDefinition(name) => r == MdTag::FootnoteDefinition(name),
            RawTag::Table(aligns) => r matches MdTag::Table(columns) && columns@.len()
                == aligns@.len(),
            RawTag::Link(dest, title) => r == (MdTag::Link { dest, title }),
            RawTag::Image(dest, title) => r == (MdTag::Image { dest, title }),
        },
{
    match raw {
        RawTag::Heading(level) => MdTag::Heading(heading_rank(level)),
        RawTag::CodeBlock(kind) => MdTag::CodeBlock(code_kind(kind)),
        RawTag::List(start) => MdTag::List(start),
        RawTag::FootnoteDefinition(name) => MdTag::FootnoteDefinition(name),
        RawTag::Table(aligns) => MdTag::Table(convert_alignments(&aligns)),
        RawTag::Link(dest, title) => MdTag::Link { dest, title },
        RawTag::Image(dest, title) => MdTag::Image { dest, title },
    }
}

/// The tag as a value of this library; `None` for a tag it has no name for.
fn convert_tag(tag: Tag<'_>) -> Option<MdTag> {
    match tag_with_fields(tag) {
        Ok(raw) => Some(tag_of(raw)),
        Err(tag) => tag_without_fields(tag),
    }
}

/// The event that opens or closes `tag`; `Other` where there is no tag,
/// because the library has no name for the construct.
fn tagged(tag: Option<MdTag>, closes: bool) -> (r: MdEvent)
    ensures
        r == (match tag {
            Some(tag) => if closes {
                MdEvent::End(tag)
            } else {
                MdEvent::Start(tag)
            },
            None => MdEvent::Other,
        }),
{
    match tag {
        Some(tag) => if closes {
            MdEvent::End(tag)
        } else {
            MdEvent::Start(tag)
        },
        None => MdEvent::Other,
    }
}

/// What an event becomes, once it is taken apart: the same event with the
/// same text or mark. An event that opens or closes a construct stays one,
/// with the tag as `convert_tag` gives it, or becomes `Other`.
fn event_of(raw: RawEvent<'_>) -> (r: MdEvent)
    ensures
        match raw {
            RawEvent::Start(_) => r is Start || r is Other,
            RawEvent::End(_) => r is End || r is Other,
            RawEvent::Text(text) => r == MdEvent::Text(text),
            RawEvent::Code(text) => r == MdEvent::Code(text),
            RawEvent::Html(text) => r == MdEvent::Html(text),
            RawEvent::FootnoteReference(name) => r == MdEvent::FootnoteReference(name),
            RawEvent::SoftBreak => r == MdEvent::SoftBreak,
            RawEvent::HardBreak => r == MdEvent::HardBreak,
            RawEvent::Rule => r == MdEvent::Rule,
            RawEvent::TaskListMarker(checked) => r == MdEvent::TaskListMarker(checked),
        },
{
    match raw {
        RawEvent::Start(tag) => tagged(convert_tag(tag), false),
        RawEvent::End(tag) => tagged(convert_tag(tag), true),
        RawEvent::Text(text) => MdEvent::Text(text),
        RawEvent::Code(text) => MdEvent::Code(text),
        RawEvent::Html(text) => MdEvent::Html(text),
        RawEvent::FootnoteReference(name) => MdEvent::FootnoteReference(name),
        RawEvent::SoftBreak => MdEvent::SoftBreak,
        RawEvent::HardBreak => MdEvent::HardBreak,
        RawEvent::Rule => MdEvent::Rule,
        RawEvent::TaskListMarker(checked) => MdEvent::TaskListMarker(checked),
    }
}

/// The event as a value of this library; `Other` where it, or its tag, is
/// one that the library has no name for.
fn convert_event(event: Event<'_>) -> MdEvent {
    event_of(open_event(event))
}

} // verus!
