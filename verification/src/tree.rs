//! The render tree: what a markup value turns into for display.
//!
//! A tree is made of opaque raw markup, text leaves, elements (a tag name,
//! attributes in the order they were first set, children) and fragments.
//! The contracts speak of the trees' views, which hold sequences where the
//! trees hold vectors and strings.

use crate::text::same_text;
use vstd::prelude::*;
use vstd::string::StringExecFns;

verus! {

/// One attribute of an element.
#[derive(Clone, Debug, PartialEq, Eq)]
pub struct Attribute {
    pub name: String,
    pub value: String,
}

/// An element: a tag name, its attributes and its children.
#[derive(Debug, PartialEq, Eq)]
pub struct Element {
    pub tag: String,
    pub attributes: Vec<Attribute>,
    pub children: Vec<RenderNode>,
}

/// A node of the render tree.
#[derive(Debug, PartialEq, Eq)]
pub enum RenderNode {
    /// Markup that is handed on as it is, neither parsed nor escaped.
    Raw(String),
    /// A run of text.
    Text(String),
    /// An element with its subtree.
    Element(Element),
    /// Several nodes side by side, with no element around them.
    Fragment(Vec<RenderNode>),
}

/// The mathematical value of an element.
pub ghost struct ElementView {
    pub tag: Seq<char>,
    pub attributes: Seq<(Seq<char>, Seq<char>)>,
    pub children: Seq<Tree>,
}

/// The mathematical value of a render tree.
pub ghost enum Tree {
    Raw(Seq<char>),
    Text(Seq<char>),
    Element(ElementView),
    Fragment(Seq<Tree>),
}

/// The index of the first attribute called `name`, if there is one.
pub open spec fn find_attribute(attributes: Seq<(Seq<char>, Seq<char>)>, name: Seq<char>) -> Option<
    int,
>
    decreases attributes.len(),
{
    if attributes.len() == 0 {
        None
    } else {
        match find_attribute(attributes.drop_last(), name) {
            Some(i) => Some(i),
            None => if attributes.last().0 == name {
                Some(attributes.len() - 1)
            } else {
                None
            },
        }
    }
}

impl ElementView {
    /// An element with that tag and nothing else.
    pub open spec fn empty(tag: Seq<char>) -> ElementView {
        ElementView { tag, attributes: Seq::empty(), children: Seq::empty() }
    }

    /// The element with one more child at the end.
    pub open spec fn with_child(self, child: Tree) -> ElementView {
        ElementView { children: self.children.push(child), ..self }
    }

    /// The element with all its children replaced.
    pub open spec fn with_children(self, children: Seq<Tree>) -> ElementView {
        ElementView { children, ..self }
    }

    /// The value of the attribute called `name`, if the element has it.
    pub open spec fn attribute(self, name: Seq<char>) -> Option<Seq<char>> {
        match find_attribute(self.attributes, name) {
            Some(i) => Some(self.attributes[i].1),
            None => None,
        }
    }

    /// The element with the attribute `name` set to `value`: replaced where
    /// it stands if the element has it, added at the end if not.
    pub open spec fn with_attribute(self, name: Seq<char>, value: Seq<char>) -> ElementView {
        match find_attribute(self.attributes, name) {
            Some(i) => ElementView { attributes: self.attributes.update(i, (name, value)), ..self },
            None => ElementView { attributes: self.attributes.push((name, value)), ..self },
        }
    }

    /// The element with one more class: the `class` attribute is created
    /// with it, or gets it appended behind a space.
    pub open spec fn with_class(self, class: Seq<char>) -> ElementView {
        match self.attribute("class"@) {
            Some(classes) => self.with_attribute("class"@, classes + seq![' '] + class),
            None => self.with_attribute("class"@, class),
        }
    }
}

impl Tree {
    /// The tree with one more class, if it is an element; unchanged if not.
    pub open spec fn with_class(self, class: Seq<char>) -> Tree {
        match self {
            Tree::Element(e) => Tree::Element(e.with_class(class)),
            _ => self,
        }
    }

    /// The tree with the attribute set, if it is an element; unchanged if not.
    pub open spec fn with_attribute(self, name: Seq<char>, value: Seq<char>) -> Tree {
        match self {
            Tree::Element(e) => Tree::Element(e.with_attribute(name, value)),
            _ => self,
        }
    }
}

/// The values of a sequence of nodes.
pub open spec fn forest(nodes: Seq<RenderNode>) -> Seq<Tree>
    decreases nodes,
{
    Seq::new(
        nodes.len(),
        |i: int|
            if 0 <= i < nodes.len() {
                nodes[i].view()
            } else {
                Tree::Fragment(Seq::empty())
            },
    )
}

/// The values of a sequence of attributes.
pub open spec fn attribute_views(attributes: Seq<Attribute>) -> Seq<(Seq<char>, Seq<char>)> {
    Seq::new(attributes.len(), |i: int| attributes[i]@)
}

impl View for Attribute {
    type V = (Seq<char>, Seq<char>);

    open spec fn view(&self) -> (Seq<char>, Seq<char>) {
        (self.name@, self.value@)
    }
}

impl View for Element {
    type V = ElementView;

    open spec fn view(&self) -> ElementView
        decreases self,
    {
        ElementView {
            tag: self.tag@,
            attributes: attribute_views(self.attributes@),
            children: forest(self.children@),
        }
    }
}

impl View for RenderNode {
    type V = Tree;

    open spec fn view(&self) -> Tree
        decreases self,
    {
        match self {
            RenderNode::Raw(text) => Tree::Raw(text@),
            RenderNode::Text(text) => Tree::Text(text@),
            RenderNode::Element(element) => Tree::Element(element.view()),
            RenderNode::Fragment(nodes) => Tree::Fragment(forest(nodes@)),
        }
    }
}

/// A match among the first `k` attributes is the match in all of them.
proof fn lemma_find_attribute_prefix(
    attributes: Seq<(Seq<char>, Seq<char>)>,
    name: Seq<char>,
    k: int,
)
    requires
        0 <= k <= attributes.len(),
        find_attribute(attributes.take(k), name) is Some,
    ensures
        find_attribute(attributes, name) == find_attribute(attributes.take(k), name),
    decreases attributes.len() - k,
{
    if k < attributes.len() {
        assert(attributes.take(k + 1).drop_last() =~= attributes.take(k));
        lemma_find_attribute_prefix(attributes, name, k + 1);
    } else {
        assert(attributes.take(k) =~= attributes);
    }
}

impl Element {
    /// An element with that tag, no attribute and no child.
    pub fn new(tag: &str) -> (r: Element)
        ensures
            r@ == ElementView::empty(tag@),
    {
        let r = Element { tag: String::from_str(tag), attributes: Vec::new(), children: Vec::new() };
        assert(r@.attributes =~= Seq::empty());
        assert(r@.children =~= Seq::empty());
        r
    }

    /// Where the first attribute called `name` stands, if there is one.
    fn position(&self, name: &str) -> (r: Option<usize>)
        ensures
            match r {
                Some(i) => find_attribute(self@.attributes, name@) == Some(i as int) && i
                    < self.attributes@.len(),
                None => find_attribute(self@.attributes, name@) is None,
            },
    {
        let ghost all = self@.attributes;
        let mut i: usize = 0;
        while i < self.attributes.len()
            invariant
                i <= self.attributes@.len(),
                all == self@.attributes,
                all.len() == self.attributes@.len(),
                find_attribute(all.take(i as int), name@) is None,
            decreases self.attributes@.len() - i,
        {
            assert(all.take(i + 1).drop_last() =~= all.take(i as int));
            assert(all[i as int] == self.attributes@[i as int]@);
            if same_text(self.attributes[i].name.as_str(), name) {
                proof {
                    lemma_find_attribute_prefix(all, name@, i + 1);
                }
                return Some(i);
            }
            i = i + 1;
        }
        assert(all.take(i as int) =~= all);
        None
    }

    /// The value of the attribute called `name`, if the element has it.
    pub fn attribute(&self, name: &str) -> (r: Option<&String>)
        ensures
            match r {
                Some(value) => self@.attribute(name@) == Some(value@),
                None => self@.attribute(name@) is None,
            },
    {
        match self.position(name) {
            Some(i) => Some(&self.attributes[i].value),
            None => None,
        }
    }

    /// Sets the attribute `name` to `value`: in place if the element has
    /// it, at the end if not.
    pub fn set_attribute(&mut self, name: &str, value: String)
        ensures
            final(self)@ == old(self)@.with_attribute(name@, value@),
    {
        match self.position(name) {
            Some(i) => {
                self.attributes[i].value = value;
                self.attributes[i].name = String::from_str(name);
                assert(final(self)@.attributes =~= old(self)@.attributes.update(
                    i as int,
                    (name@, value@),
                ));
            },
            None => {
                self.attributes.push(Attribute { name: String::from_str(name), value });
                assert(final(self)@.attributes =~= old(self)@.attributes.push((name@, value@)));
            },
        }
    }

    /// Adds a class name to the element's `class` attribute.
    pub fn add_class(&mut self, class: &str)
        ensures
            final(self)@ == old(self)@.with_class(class@),
    {
        let classes = match self.attribute("class") {
            Some(present) => {
                let mut classes = present.clone();
                classes.append(" ");
                proof {
                    reveal_strlit(" ");
                    assert(" "@ =~= seq![' ']);
                }
                classes.append(class);
                classes
            },
            None => String::from_str(class),
        };
        self.set_attribute("class", classes);
    }

    /// Adds a child behind the element's children.
    pub fn add_child(&mut self, child: RenderNode)
        ensures
            final(self)@ == old(self)@.with_child(child@),
    {
        self.children.push(child);
        assert(final(self)@.children =~= old(self)@.children.push(child@));
    }
}

} // verus!
