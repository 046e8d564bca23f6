//! From a Markdown text to its render tree.
//!
//! The text is read as a stream of events. An event that opens a construct
//! puts a new element on a stack of open elements; text, rules and breaks
//! become leaves of the element on top; an event that closes a construct
//! takes the top element off, finishes it, and makes it a child of the new
//! top, or a root where nothing is open. An event with no part in this is
//! skipped, and its position is reported.

use crate::decimal::{decimal, to_decimal};
use crate::event::{
    markdown_events, markdown_html, push_html, tokenize, Align, CodeKind, HeadingRank, MdEvent,
    MdTag, ENABLE_FOOTNOTES, ENABLE_SMART_PUNCTUATION, ENABLE_STRIKETHROUGH, ENABLE_TABLES,
    ENABLE_TASKLISTS,
};
use crate::markup::{Markup, MarkupLang};
use crate::text::same_text;
use crate::tree::{forest, Element, ElementView, RenderNode, Tree};
use vstd::prelude::*;

verus! {

/// The tokenizer options that rendering uses: tables, strikethrough and
/// typographic punctuation; no footnotes, no task lists.
pub const MARKDOWN_OPTIONS: u32 = ENABLE_TABLES | ENABLE_SMART_PUNCTUATION | ENABLE_STRIKETHROUGH;

/// The tokenizer options under which a Markdown text is written out as
/// HTML: tables, footnotes, strikethrough and task lists.
pub const HTML_OPTIONS: u32 = ENABLE_TABLES | ENABLE_FOOTNOTES | ENABLE_STRIKETHROUGH
    | ENABLE_TASKLISTS;

/// An element with that tag and that class, and nothing else.
pub open spec fn classed(tag: Seq<char>, class: Seq<char>) -> ElementView {
    ElementView::empty(tag).with_attribute("class"@, class)
}

/// The tag name of a heading.
pub open spec fn heading_name(rank: HeadingRank) -> Seq<char> {
    match rank {
        HeadingRank::H1 => "h1"@,
        HeadingRank::H2 => "h2"@,
        HeadingRank::H3 => "h3"@,
        HeadingRank::H4 => "h4"@,
        HeadingRank::H5 => "h5"@,
        HeadingRank::H6 => "h6"@,
    }
}

/// The class that marks a code block as written in a known language.
pub open spec fn language_class(info: Seq<char>) -> Option<Seq<char>> {
    if info == "html"@ {
        Some("html-language"@)
    } else if info == "rust"@ {
        Some("rust-language"@)
    } else if info == "java"@ {
        Some("java-language"@)
    } else if info == "c"@ {
        Some("c-language"@)
    } else {
        None
    }
}

/// The element of a code block.
pub open spec fn code_element(kind: CodeKind) -> ElementView {
    match kind {
        CodeKind::Indented => ElementView::empty("code"@),
        CodeKind::Fenced(info) => match language_class(info@) {
            Some(class) => classed("code"@, class),
            None => ElementView::empty("code"@),
        },
    }
}

/// The element of a list: unordered, ordered from one, or ordered from
/// another number, which it then names.
pub open spec fn list_element(start: Option<u64>) -> ElementView {
    match start {
        None => ElementView::empty("ul"@),
        Some(first) => if first == 1 {
            ElementView::empty("ol"@)
        } else {
            ElementView::empty("ol"@).with_attribute("start"@, decimal(first as nat))
        },
    }
}

/// An element that points somewhere: the destination under `attribute`,
/// and the title if there is one.
pub open spec fn pointing(
    tag: Seq<char>,
    attribute: Seq<char>,
    dest: Seq<char>,
    title: Seq<char>,
) -> ElementView {
    let element = ElementView::empty(tag).with_attribute(attribute, dest);
    if title.len() == 0 {
        element
    } else {
        element.with_attribute("title"@, title)
    }
}

/// The element that a construct opens with, before it has any child.
pub open spec fn open_tag(tag: MdTag) -> ElementView {
    match tag {
        MdTag::Paragraph => ElementView::empty("p"@),
        MdTag::Heading(rank) => ElementView::empty(heading_name(rank)),
        MdTag::BlockQuote => classed("blockquote"@, "blockquote"@),
        MdTag::CodeBlock(kind) => code_element(kind),
        MdTag::List(start) => list_element(start),
        MdTag::Item => ElementView::empty("li"@),
        MdTag::FootnoteDefinition(_) => ElementView::empty("span"@),
        MdTag::Table(_) => classed("table"@, "table"@),
        MdTag::TableHead => ElementView::empty("th"@),
        MdTag::TableRow => ElementView::empty("tr"@),
        MdTag::TableCell => ElementView::empty("td"@),
        MdTag::Emphasis => classed("span"@, "font-italic"@),
        MdTag::Strong => classed("span"@, "font-weight-bold"@),
        MdTag::Strikethrough => classed("span"@, "text-decoration-strikethrough"@),
        MdTag::Link { dest, title } => pointing("a"@, "href"@, dest@, title@),
        MdTag::Image { dest, title } => pointing("img"@, "src"@, dest@, title@),
    }
}

/// An element with that tag and that class.
fn classed_element(tag: &str, class: &str) -> (r: Element)
    ensures
        r@ == classed(tag@, class@),
{
    let mut element = Element::new(tag);
    element.set_attribute("class", String::from_str(class));
    element
}

/// An element with that tag, the destination under `attribute`, and the
/// title if there is one.
fn pointing_element(tag: &str, attribute: &str, dest: &String, title: &String) -> (r: Element)
    ensures
        r@ == pointing(tag@, attribute@, dest@, title@),
{
    let mut element = Element::new(tag);
    element.set_attribute(attribute, dest.clone());
    if !title.as_str().is_empty() {
        element.set_attribute("title", title.clone());
    }
    element
}

/// The tag name of a heading.
fn heading_name_of(rank: HeadingRank) -> (r: &'static str)
    ensures
        r@ == heading_name(rank),
{
    match rank {
        HeadingRank::H1 => "h1",
        HeadingRank::H2 => "h2",
        HeadingRank::H3 => "h3",
        HeadingRank::H4 => "h4",
        HeadingRank::H5 => "h5",
        HeadingRank::H6 => "h6",
    }
}

/// The class of a code block's language, where it is a known one.
fn language_class_of(info: &str) -> (r: Option<&'static str>)
    ensures
        match r {
            Some(class) => language_class(info@) == Some(class@),
            None => language_class(info@) is None,
        },
{
    if same_text(info, "html") {
        Some("html-language")
    } else if same_text(info, "rust") {
        Some("rust-language")
    } else if same_text(info, "java") {
        Some("java-language")
    } else if same_text(info, "c") {
        Some("c-language")
    } else {
        None
    }
}

/// The element that a construct opens with, before it has any child.
pub fn make_tag(tag: &MdTag) -> (r: Element)
    ensures
        r@ == open_tag(*tag),
{
    match tag {
        MdTag::Paragraph => Element::new("p"),
        MdTag::Heading(rank) => Element::new(heading_name_of(*rank)),
        MdTag::BlockQuote => classed_element("blockquote", "blockquote"),
        MdTag::CodeBlock(kind) => match kind {
            CodeKind::Indented => Element::new("code"),
            CodeKind::Fenced(info) => match language_class_of(info.as_str()) {
                Some(class) => classed_element("code", class),
                None => Element::new("code"),
            },
        },
        MdTag::List(None) => Element::new("ul"),
        MdTag::List(Some(first)) => {
            let mut element = Element::new("ol");
            if *first != 1 {
                element.set_attribute("start", to_decimal(*first));
            }
            element
        },
        MdTag::Item => Element::new("li"),
        MdTag::FootnoteDefinition(_) => Element::new("span"),
        MdTag::Table(_) => classed_element("table", "table"),
        MdTag::TableHead => Element::new("th"),
        MdTag::TableRow => Element::new("tr"),
        MdTag::TableCell => Element::new("td"),
        MdTag::Emphasis => classed_element("span", "font-italic"),
        MdTag::Strong => classed_element("span", "font-weight-bold"),
        MdTag::Strikethrough => classed_element("span", "text-decoration-strikethrough"),
        MdTag::Link { dest, title } => pointing_element("a", "href", dest, title),
        MdTag::Image { dest, title } => pointing_element("img", "src", dest, title),
    }
}

/// The class that an alignment puts on a cell; none where the column is
/// not aligned.
pub open spec fn align_class(align: Align) -> Option<Seq<char>> {
    match align {
        Align::Unset => None,
        Align::Left => Some("align-left"@),
        Align::Center => Some("align-center"@),
        Align::Right => Some("align-right"@),
    }
}

/// A cell with the class of its column. A cell that is no element, or
/// stands in a column that the table declares no alignment for, stays as
/// it is.
pub open spec fn aligned_cell(cell: Tree, column: int, aligns: Seq<Align>) -> Tree {
    if 0 <= column < aligns.len() {
        match align_class(aligns[column]) {
            Some(class) => cell.with_class(class),
            None => cell,
        }
    } else {
        cell
    }
}

/// The cells of a row, each with the class of its column.
pub open spec fn aligned_cells(cells: Seq<Tree>, aligns: Seq<Align>) -> Seq<Tree> {
    Seq::new(cells.len(), |i: int| aligned_cell(cells[i], i, aligns))
}

/// A row with its cells aligned; a row that is no element stays as it is.
pub open spec fn aligned_row(row: Tree, aligns: Seq<Align>) -> Tree {
    match row {
        Tree::Element(element) => Tree::Element(
            element.with_children(aligned_cells(element.children, aligns)),
        ),
        _ => row,
    }
}

/// A table with the cells of every row aligned.
pub open spec fn aligned_table(table: ElementView, aligns: Seq<Align>) -> ElementView {
    table.with_children(
        Seq::new(table.children.len(), |i: int| aligned_row(table.children[i], aligns)),
    )
}

/// A table head with each of its cells marked as the header of a column.
pub open spec fn header_row(head: ElementView) -> ElementView {
    head.with_children(
        Seq::new(
            head.children.len(),
            |i: int| head.children[i].with_attribute("scope"@, "col"@),
        ),
    )
}

/// What the element `top` becomes when the event that closes `tag` takes
/// it off the stack: a code block is put inside a `pre` element, a table
/// has its cells aligned, a table head has its cells marked, and anything
/// else stays as it is.
pub open spec fn close_tag(tag: MdTag, top: ElementView) -> ElementView {
    match tag {
        MdTag::CodeBlock(_) => ElementView::empty("pre"@).with_child(Tree::Element(top)),
        MdTag::Table(aligns) => aligned_table(top, aligns@),
        MdTag::TableHead => header_row(top),
        _ => top,
    }
}

/// The class that an alignment puts on a cell.
fn align_class_of(align: Align) -> (r: Option<&'static str>)
    ensures
        match r {
            Some(class) => align_class(align) == Some(class@),
            None => align_class(align) is None,
        },
{
    match align {
        Align::Unset => None,
        Align::Left => Some("align-left"),
        Align::Center => Some("align-center"),
        Align::Right => Some("align-right"),
    }
}

/// Puts on each cell of `row` the class of its column.
fn align_row(row: &mut Element, aligns: &Vec<Align>)
    ensures
        final(row)@ == old(row)@.with_children(aligned_cells(old(row)@.children, aligns@)),
{
    let mut i: usize = 0;
    while i < row.children.len()
        invariant
            i <= row.children@.len(),
            row@.tag == old(row)@.tag,
            row@.attributes == old(row)@.attributes,
            row@.children.len() == old(row)@.children.len(),
            forall|j: int|
                0 <= j < i ==> #[trigger] row@.children[j] == aligned_cell(
                    old(row)@.children[j],
                    j,
                    aligns@,
                ),
            forall|j: int|
                i <= j < row@.children.len() ==> #[trigger] row@.children[j] == old(
                    row,
                )@.children[j],
        decreases row.children@.len() - i,
    {
        let ghost before = row@;
        if i < aligns.len() {
            match align_class_of(aligns[i]) {
                Some(class) => match &mut row.children[i] {
                    RenderNode::Element(cell) => {
                        cell.add_class(class);
                    },
                    _ => {},
                },
                None => {},
            }
        }
        assert(row@.children.len() == before.children.len());
        assert(forall|j: int|
            0 <= j < row@.children.len() && j != i ==> #[trigger] row@.children[j]
                == before.children[j]);
        assert(row@.children[i as int] == aligned_cell(before.children[i as int], i as int, aligns@));
        i = i + 1;
    }
    assert(row@.children =~= aligned_cells(old(row)@.children, aligns@));
}

/// Aligns the cells of every row of `table`.
fn align_table(table: &mut Element, aligns: &Vec<Align>)
    ensures
        final(table)@ == aligned_table(old(table)@, aligns@),
{
    let mut i: usize = 0;
    while i < table.children.len()
        invariant
            i <= table.children@.len(),
            table@.tag == old(table)@.tag,
            table@.attributes == old(table)@.attributes,
            table@.children.len() == old(table)@.children.len(),
            forall|j: int|
                0 <= j < i ==> #[trigger] table@.children[j] == aligned_row(
                    old(table)@.children[j],
                    aligns@,
                ),
            forall|j: int|
                i <= j < table@.children.len() ==> #[trigger] table@.children[j] == old(
                    table,
                )@.children[j],
        decreases table.children@.len() - i,
    {
        let ghost before = table@;
        match &mut table.children[i] {
            RenderNode::Element(row) => {
                align_row(row, aligns);
            },
            _ => {},
        }
        assert(table@.children.len() == before.children.len());
        assert(forall|j: int|
            0 <= j < table@.children.len() && j != i ==> #[trigger] table@.children[j]
                == before.children[j]);
        assert(table@.children[i as int] == aligned_row(before.children[i as int], aligns@));
        i = i + 1;
    }
    assert(table@.children =~= aligned_table(old(table)@, aligns@).children);
}

/// Marks each cell of a table head as the header of a column.
fn mark_headers(head: &mut Element)
    ensures
        final(head)@ == header_row(old(head)@),
{
    let mut i: usize = 0;
    while i < head.children.len()
        invariant
            i <= head.children@.len(),
            head@.tag == old(head)@.tag,
            head@.attributes == old(head)@.attributes,
            head@.children.len() == old(head)@.children.len(),
            forall|j: int|
                0 <= j < i ==> #[trigger] head@.children[j] == old(
                    head,
                )@.children[j].with_attribute("scope"@, "col"@),
            forall|j: int|
                i <= j < head@.children.len() ==> #[trigger] head@.children[j] == old(
                    head,
                )@.children[j],
        decreases head.children@.len() - i,
    {
        let ghost before = head@;
        match &mut head.children[i] {
            RenderNode::Element(cell) => {
                cell.set_attribute("scope", String::from_str("col"));
            },
            _ => {},
        }
        assert(head@.children.len() == before.children.len());
        assert(forall|j: int|
            0 <= j < head@.children.len() && j != i ==> #[trigger] head@.children[j]
                == before.children[j]);
        assert(head@.children[i as int] == before.children[i as int].with_attribute(
            "scope"@,
            "col"@,
        ));
        i = i + 1;
    }
    assert(head@.children =~= header_row(old(head)@).children);
}

/// Finishes the element `top`, which the event that closes `tag` has
/// taken off the stack.
fn close_element(tag: &MdTag, top: Element) -> (r: Element)
    ensures
        r@ == close_tag(*tag, top@),
{
    match tag {
        MdTag::CodeBlock(_) => {
            let mut pre = Element::new("pre");
            pre.add_child(RenderNode::Element(top));
            pre
        },
        MdTag::Table(aligns) => {
            let mut table = top;
            align_table(&mut table, aligns);
            table
        },
        MdTag::TableHead => {
            let mut head = top;
            mark_headers(&mut head);
            head
        },
        _ => top,
    }
}

/// The leaf that an event stands for: text for text, a line feed for a
/// soft break, an empty element for a rule and for a hard break. The other
/// events stand for no leaf.
pub open spec fn leaf(event: MdEvent) -> Option<Tree> {
    match event {
        MdEvent::Text(text) => Some(Tree::Text(text@)),
        MdEvent::Rule => Some(Tree::Element(ElementView::empty("hr"@))),
        MdEvent::SoftBreak => Some(Tree::Text("\n"@)),
        MdEvent::HardBreak => Some(Tree::Element(ElementView::empty("br"@))),
        _ => None,
    }
}

/// Where the reduction of a stream of events stands: the elements that
/// are open, outermost first; the finished nodes that stand at the root;
/// and the positions of the events that were skipped.
pub ghost struct Reduction {
    pub open: Seq<ElementView>,
    pub roots: Seq<Tree>,
    pub skipped: Seq<int>,
}

impl Reduction {
    /// Before the first event: nothing open, nothing finished.
    pub open spec fn start() -> Reduction {
        Reduction { open: Seq::empty(), roots: Seq::empty(), skipped: Seq::empty() }
    }

    /// A finished node goes to the innermost open element as its next
    /// child, or to the roots where no element is open.
    pub open spec fn attach(self, node: Tree) -> Reduction {
        if self.open.len() > 0 {
            Reduction {
                open: self.open.drop_last().push(self.open.last().with_child(node)),
                ..self
            }
        } else {
            Reduction { roots: self.roots.push(node), ..self }
        }
    }

    /// The event at position `index` is left out.
    pub open spec fn skip(self, index: int) -> Reduction {
        Reduction { skipped: self.skipped.push(index), ..self }
    }

    /// What the event at position `index` does.
    pub open spec fn step(self, event: MdEvent, index: int) -> Reduction {
        match event {
            MdEvent::Start(tag) => Reduction { open: self.open.push(open_tag(tag)), ..self },
            MdEvent::End(tag) => if self.open.len() > 0 {
                Reduction { open: self.open.drop_last(), ..self }.attach(
                    Tree::Element(close_tag(tag, self.open.last())),
                )
            } else {
                self.skip(index)
            },
            _ => match leaf(event) {
                Some(node) => self.attach(node),
                None => self.skip(index),
            },
        }
    }

    /// The tree that the reduction has made: its one root, or a fragment of
    /// its roots where there are several or none. What is still open is
    /// left out.
    pub open spec fn tree(self) -> Tree {
        if self.roots.len() == 1 {
            self.roots[0]
        } else {
            Tree::Fragment(self.roots)
        }
    }
}

/// Where the reduction stands after all of `events`.
pub open spec fn reduce(events: Seq<MdEvent>) -> Reduction
    decreases events.len(),
{
    if events.len() == 0 {
        Reduction::start()
    } else {
        reduce(events.drop_last()).step(events.last(), events.len() - 1)
    }
}

/// The values of the open elements.
pub open spec fn element_views(elements: Seq<Element>) -> Seq<ElementView> {
    Seq::new(elements.len(), |i: int| elements[i]@)
}

/// An event that has no part in the render tree and was skipped. It stops
/// nothing: the events behind it are reduced as if it had not been there.
#[derive(Clone, Copy, Debug, PartialEq, Eq, Structural)]
pub struct UnsupportedMarkupEvent {
    /// The position of the event in the stream.
    pub index: usize,
}

/// The positions of the skipped events.
pub open spec fn positions(skipped: Seq<UnsupportedMarkupEvent>) -> Seq<int> {
    Seq::new(skipped.len(), |i: int| skipped[i].index as int)
}

/// What rendering a stream of events gives.
#[derive(Debug, PartialEq, Eq)]
pub struct Rendered {
    /// The render tree.
    pub tree: RenderNode,
    /// The events that were skipped, in the order of the stream.
    pub unsupported: Vec<UnsupportedMarkupEvent>,
}

/// Hands a finished node to the innermost open element, or to the roots.
fn attach(open: &mut Vec<Element>, roots: &mut Vec<RenderNode>, node: RenderNode)
    ensures
        (Reduction {
            open: element_views(final(open)@),
            roots: forest(final(roots)@),
            skipped: Seq::empty(),
        }) == (Reduction {
            open: element_views(old(open)@),
            roots: forest(old(roots)@),
            skipped: Seq::empty(),
        }).attach(node@),
{
    let n: usize = open.len();
    if n > 0 {
        open[n - 1].add_child(node);
        assert(element_views(final(open)@) =~= element_views(old(open)@).drop_last().push(
            element_views(old(open)@).last().with_child(node@),
        ));
    } else {
        roots.push(node);
        assert(forest(final(roots)@) =~= forest(old(roots)@).push(
            node@,
        ));
    }
}

/// Reduces a stream of events to a render tree, and reports the positions of
/// the events that it skipped.
pub fn render_events(events: &Vec<MdEvent>) -> (r: Rendered)
    ensures
        r.tree@ == reduce(events@).tree(),
        positions(r.unsupported@) == reduce(events@).skipped,
{
    let mut open: Vec<Element> = Vec::new();
    let mut roots: Vec<RenderNode> = Vec::new();
    let mut unsupported: Vec<UnsupportedMarkupEvent> = Vec::new();
    let mut i: usize = 0;
    assert(element_views(open@) =~= Seq::empty());
    assert(forest(roots@) =~= Seq::empty());
    assert(positions(unsupported@) =~= Seq::empty());
    assert(events@.take(0) =~= Seq::empty());
    while i < events.len()
        invariant
            i <= events@.len(),
            element_views(open@) == reduce(events@.take(i as int)).open,
            forest(roots@) == reduce(events@.take(i as int)).roots,
            positions(unsupported@) == reduce(events@.take(i as int)).skipped,
        decreases events@.len() - i,
    {
        let ghost before = reduce(events@.take(i as int));
        assert(events@.take(i + 1).drop_last() =~= events@.take(i as int));
        assert(events@.take(i + 1).last() == events@[i as int]);
        assert(reduce(events@.take(i + 1)) == before.step(events@[i as int], i as int));
        let ghost skipped_before = positions(unsupported@);
        let mut skip = false;
        match &events[i] {
            MdEvent::Start(tag) => {
                let element = make_tag(tag);
                open.push(element);
                assert(element_views(open@) =~= before.open.push(open_tag(*tag)));
            },
            MdEvent::End(tag) => match open.pop() {
                Some(top) => {
                    assert(element_views(open@) =~= before.open.drop_last());
                    assert(top@ == before.open.last());
                    let done = close_element(tag, top);
                    attach(&mut open, &mut roots, RenderNode::Element(done));
                },
                None => {
                    skip = true;
                },
            },
            MdEvent::Text(text) => {
                attach(&mut open, &mut roots, RenderNode::Text(text.clone()));
            },
            MdEvent::Rule => {
                attach(&mut open, &mut roots, RenderNode::Element(Element::new("hr")));
            },
            MdEvent::SoftBreak => {
                attach(&mut open, &mut roots, RenderNode::Text(String::from_str("\n")));
            },
            MdEvent::HardBreak => {
                attach(&mut open, &mut roots, RenderNode::Element(Element::new("br")));
            },
            _ => {
                skip = true;
            },
        }
        if skip {
            unsupported.push(UnsupportedMarkupEvent { index: i });
            assert(positions(unsupported@) =~= skipped_before.push(i as int));
        }
        i = i + 1;
    }
    assert(events@.take(i as int) =~= events@);
    let tree = if roots.len() == 1 {
        match roots.pop() {
            Some(root) => root,
            None => RenderNode::Fragment(roots),
        }
    } else {
        RenderNode::Fragment(roots)
    };
    Rendered { tree, unsupported }
}

/// The events that a Markdown text is read as, with tables, strikethrough
/// and typographic punctuation switched on.
pub fn markdown_to_events(src: &str) -> (r: Vec<MdEvent>)
    ensures
        r@ == markdown_events(src@, MARKDOWN_OPTIONS),
{
    tokenize(src, MARKDOWN_OPTIONS)
}

/// Renders a Markdown text: reads it as events and reduces them to a tree.
pub fn render_markdown(src: &str) -> (r: RenderNode)
    ensures
        r@ == reduce(markdown_events(src@, MARKDOWN_OPTIONS)).tree(),
{
    let events = markdown_to_events(src);
    render_events(&events).tree
}

/// A Markdown text written out as HTML, with tables, footnotes,
/// strikethrough and task lists switched on.
pub fn markdown_to_html(src: &str) -> (r: String)
    ensures
        r@ == markdown_html(src@, HTML_OPTIONS),
{
    push_html(src, HTML_OPTIONS)
}

impl Markup {
    /// The render tree of the markup. HTML is handed on as it is, as one
    /// raw node: it is neither parsed nor escaped. Markdown is rendered.
    pub fn to_dom(&self) -> (r: RenderNode)
        ensures
            r@ == (match self.lang {
                MarkupLang::Html => Tree::Raw(self.text@),
                MarkupLang::Md => reduce(markdown_events(self.text@, MARKDOWN_OPTIONS)).tree(),
            }),
    {
        match self.lang {
            MarkupLang::Html => RenderNode::Raw(self.text.clone()),
            MarkupLang::Md => render_markdown(self.text.as_str()),
        }
    }

    /// The markup as one raw node of HTML: the text itself where it is HTML,
    /// and the text written out as HTML where it is Markdown.
    pub fn to_html(&self) -> (r: RenderNode)
        ensures
            r@ == (match self.lang {
                MarkupLang::Html => Tree::Raw(self.text@),
                MarkupLang::Md => Tree::Raw(markdown_html(self.text@, HTML_OPTIONS)),
            }),
    {
        match self.lang {
            MarkupLang::Html => RenderNode::Raw(self.text.clone()),
            MarkupLang::Md => RenderNode::Raw(markdown_to_html(self.text.as_str())),
        }
    }
}

} // verus!
