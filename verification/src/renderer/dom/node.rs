//! The document tree: an arena of nodes addressed by index.
//!
//! Node 0 is the document. Every other node was appended as the last child of
//! a node that already existed, so indices grow from parent to child and from
//! a sibling to the siblings after it.

use crate::error::Error;
use crate::renderer::html::attribute::attrs_view;
use crate::renderer::html::attribute::duplicate_attributes;
use crate::renderer::html::attribute::Attribute;
use crate::renderer::html::attribute::AttributeView;
use crate::text::str_eq;
use crate::tree::append_links;
use crate::tree::detached;
use crate::tree::lemma_append_links;
use crate::tree::lemma_root_links;
use crate::tree::links_wf;
use crate::tree::node_ok;
use crate::tree::Links;
use vstd::prelude::*;

verus! {

/// Index of a node in its `Window`.
pub type NodeId = usize;

/// The element names this browser knows, and `Other` for the rest.
#[derive(Debug, Clone, Copy, PartialEq, Eq, Structural)]
pub enum ElementKind {
    Html,
    Head,
    Style,
    Script,
    Body,
    P,
    H1,
    H2,
    A,
    Other,
}

/// The kind a tag name stands for; `None` for a name that is not known.
pub open spec fn known_kind(tag: Seq<char>) -> Option<ElementKind> {
    if tag == "html"@ {
        Some(ElementKind::Html)
    } else if tag == "head"@ {
        Some(ElementKind::Head)
    } else if tag == "style"@ {
        Some(ElementKind::Style)
    } else if tag == "script"@ {
        Some(ElementKind::Script)
    } else if tag == "body"@ {
        Some(ElementKind::Body)
    } else if tag == "p"@ {
        Some(ElementKind::P)
    } else if tag == "h1"@ {
        Some(ElementKind::H1)
    } else if tag == "h2"@ {
        Some(ElementKind::H2)
    } else if tag == "a"@ {
        Some(ElementKind::A)
    } else {
        None
    }
}

/// The kind of an element with the given tag name.
pub open spec fn kind_of_tag(tag: Seq<char>) -> ElementKind {
    match known_kind(tag) {
        Some(k) => k,
        None => ElementKind::Other,
    }
}

/// Elements that are laid out as blocks unless a style says otherwise.
pub open spec fn block_by_default(kind: ElementKind) -> bool {
    kind is Html || kind is Head || kind is Style || kind is Script || kind is Body || kind is P
        || kind is H1 || kind is H2
}

impl ElementKind {
    /// Reads a lower-case tag name. Fails, with `UnexpectedInput`, exactly on
    /// the names outside the known set.
    pub fn from_str(s: &str) -> (r: Result<ElementKind, Error>)
        ensures
            match known_kind(s@) {
                Some(k) => r == Ok::<ElementKind, Error>(k),
                None => r matches Err(Error::UnexpectedInput(m)) && m@ == s@,
            },
    {
        if str_eq(s, "html") {
            Ok(ElementKind::Html)
        } else if str_eq(s, "head") {
            Ok(ElementKind::Head)
        } else if str_eq(s, "style") {
            Ok(ElementKind::Style)
        } else if str_eq(s, "script") {
            Ok(ElementKind::Script)
        } else if str_eq(s, "body") {
            Ok(ElementKind::Body)
        } else if str_eq(s, "p") {
            Ok(ElementKind::P)
        } else if str_eq(s, "h1") {
            Ok(ElementKind::H1)
        } else if str_eq(s, "h2") {
            Ok(ElementKind::H2)
        } else if str_eq(s, "a") {
            Ok(ElementKind::A)
        } else {
            Err(Error::UnexpectedInput(s.to_owned()))
        }
    }
}

/// An element: its tag name, the kind that name stands for, its attributes.
#[derive(Debug, Clone, PartialEq, Eq)]
pub struct Element {
    pub kind: ElementKind,
    pub tag: String,
    pub attributes: Vec<Attribute>,
}

/// What an element holds.
pub struct ElementView {
    pub kind: ElementKind,
    pub tag: Seq<char>,
    pub attributes: Seq<AttributeView>,
}

impl View for Element {
    type V = ElementView;

    open spec fn view(&self) -> ElementView {
        ElementView { kind: self.kind, tag: self.tag@, attributes: attrs_view(self.attributes@) }
    }
}

/// The element that `Element::new` builds from a tag name and attributes.
pub open spec fn element_view(tag: Seq<char>, attributes: Seq<AttributeView>) -> ElementView {
    ElementView { kind: kind_of_tag(tag), tag, attributes }
}

impl Element {
    /// The element with the given tag name and attributes; its kind is the one
    /// that the name stands for, `Other` for a name that is not known.
    pub fn new(tag: &str, attributes: Vec<Attribute>) -> (e: Self)
        ensures
            e@ == element_view(tag@, attrs_view(attributes@)),
    {
        let kind = match ElementKind::from_str(tag) {
            Ok(k) => k,
            Err(_) => ElementKind::Other,
        };
        Self { kind, tag: tag.to_owned(), attributes }
    }

    pub fn kind(&self) -> (k: ElementKind)
        ensures
            k == self@.kind,
    {
        self.kind
    }

    pub fn attributes(&self) -> (v: Vec<Attribute>)
        ensures
            attrs_view(v@) == self@.attributes,
    {
        duplicate_attributes(&self.attributes)
    }

    pub fn is_block_element(&self) -> (b: bool)
        ensures
            b == block_by_default(self@.kind),
    {
        match self.kind {
            ElementKind::Html
            | ElementKind::Head
            | ElementKind::Style
            | ElementKind::Script
            | ElementKind::Body
            | ElementKind::P
            | ElementKind::H1
            | ElementKind::H2 => true,
            _ => false,
        }
    }

    /// A copy with the same tag, kind and attributes.
    pub fn duplicate(&self) -> (e: Self)
        ensures
            e@ == self@,
    {
        Self {
            kind: self.kind,
            tag: self.tag.clone(),
            attributes: duplicate_attributes(&self.attributes),
        }
    }
}

/// What a node is: the document, an element, or a run of text.
#[derive(Debug, Clone, PartialEq, Eq)]
pub enum NodeKind {
    Document,
    Element(Element),
    Text(String),
}

/// What a node is, with text as sequences of characters.
pub enum NodeKindView {
    Document,
    Element(ElementView),
    Text(Seq<char>),
}

impl View for NodeKind {
    type V = NodeKindView;

    open spec fn view(&self) -> NodeKindView {
        match self {
            NodeKind::Document => NodeKindView::Document,
            NodeKind::Element(e) => NodeKindView::Element(e@),
            NodeKind::Text(s) => NodeKindView::Text(s@),
        }
    }
}

impl NodeKind {
    /// A copy of this kind, text and attributes included.
    pub fn duplicate(&self) -> (k: Self)
        ensures
            k@ == self@,
    {
        match self {
            NodeKind::Document => NodeKind::Document,
            NodeKind::Element(e) => NodeKind::Element(e.duplicate()),
            NodeKind::Text(s) => NodeKind::Text(s.clone()),
        }
    }
}

/// The element kind of a node, if it is an element.
pub open spec fn element_kind_of(kind: NodeKindView) -> Option<ElementKind> {
    match kind {
        NodeKindView::Element(e) => Some(e.kind),
        _ => None,
    }
}

/// One node of the document tree.
#[derive(Debug, Clone, PartialEq, Eq)]
pub struct Node {
    pub kind: NodeKind,
    pub links: Links,
}

/// What a node holds: its kind and its links.
pub struct NodeView {
    pub kind: NodeKindView,
    pub links: Links,
}

impl View for Node {
    type V = NodeView;

    open spec fn view(&self) -> NodeView {
        NodeView { kind: self.kind@, links: self.links }
    }
}

impl Node {
    /// A node of the given kind that is not linked to any other.
    pub fn new(kind: NodeKind) -> (n: Self)
        ensures
            n@ == (NodeView { kind: kind@, links: detached() }),
    {
        Self {
            kind,
            links: Links {
                parent: None,
                first_child: None,
                last_child: None,
                previous_sibling: None,
                next_sibling: None,
            },
        }
    }

    pub fn kind(&self) -> (k: &NodeKind)
        ensures
            k@ == self@.kind,
    {
        &self.kind
    }

    pub fn get_element(&self) -> (e: Option<&Element>)
        ensures
            match self@.kind {
                NodeKindView::Element(v) => e is Some && e->0@ == v,
                _ => e is None,
            },
    {
        match &self.kind {
            NodeKind::Element(e) => Some(e),
            _ => None,
        }
    }

    pub fn element_kind(&self) -> (k: Option<ElementKind>)
        ensures
            k == element_kind_of(self@.kind),
    {
        match &self.kind {
            NodeKind::Element(e) => Some(e.kind),
            _ => None,
        }
    }

    pub fn parent(&self) -> (r: Option<NodeId>)
        ensures
            r == self@.links.parent,
    {
        self.links.parent
    }

    pub fn first_child(&self) -> (r: Option<NodeId>)
        ensures
            r == self@.links.first_child,
    {
        self.links.first_child
    }

    pub fn last_child(&self) -> (r: Option<NodeId>)
        ensures
            r == self@.links.last_child,
    {
        self.links.last_child
    }

    pub fn previous_sibling(&self) -> (r: Option<NodeId>)
        ensures
            r == self@.links.previous_sibling,
    {
        self.links.previous_sibling
    }

    pub fn next_sibling(&self) -> (r: Option<NodeId>)
        ensures
            r == self@.links.next_sibling,
    {
        self.links.next_sibling
    }
}

/// The links of every node of a document, in index order.
pub open spec fn dom_links(s: Seq<NodeView>) -> Seq<Links> {
    Seq::new(s.len(), |i: int| s[i].links)
}

/// A document tree: node 0 is the document and the links form one tree.
pub open spec fn dom_wf(s: Seq<NodeView>) -> bool {
    &&& s.len() > 0
    &&& s[0].kind is Document
    &&& links_wf(dom_links(s))
}

/// The tree that holds the document alone.
pub open spec fn dom_empty() -> Seq<NodeView> {
    seq![NodeView { kind: NodeKindView::Document, links: detached() }]
}

/// The tree after a node of kind `kind` was appended as last child of `parent`.
pub open spec fn dom_append(s: Seq<NodeView>, parent: int, kind: NodeKindView) -> Seq<NodeView> {
    let ls = append_links(dom_links(s), parent);
    Seq::new(
        s.len() + 1,
        |i: int|
            NodeView {
                kind: if i < s.len() {
                    s[i].kind
                } else {
                    kind
                },
                links: ls[i],
            },
    )
}

/// The tree after `c` was added to the end of text node `id`; any other node
/// is left as it is.
pub open spec fn dom_push_char(s: Seq<NodeView>, id: int, c: char) -> Seq<NodeView> {
    match s[id].kind {
        NodeKindView::Text(t) => s.update(
            id,
            NodeView { kind: NodeKindView::Text(t.push(c)), links: s[id].links },
        ),
        _ => s,
    }
}

/// The node that `link` points to, if it lies behind node `after`.
pub open spec fn forward(dom: Seq<NodeView>, link: Option<usize>, after: int) -> Option<usize> {
    match link {
        Some(c) => if after < c < dom.len() {
            Some(c)
        } else {
            None
        },
        None => None,
    }
}

/// How many nodes lie at or behind `c`.
pub open spec fn nodes_left(dom: Seq<NodeView>, c: Option<usize>) -> int {
    match c {
        Some(c) => if c < dom.len() {
            dom.len() - c
        } else {
            0
        },
        None => 0,
    }
}

/// The browsing context: owner of the document tree.
#[derive(Debug, Clone, PartialEq, Eq)]
pub struct Window {
    pub nodes: Vec<Node>,
}

impl View for Window {
    type V = Seq<NodeView>;

    open spec fn view(&self) -> Seq<NodeView> {
        Seq::new(self.nodes@.len(), |i: int| self.nodes@[i]@)
    }
}

impl Window {
    /// Node 0 is the document, and parent, child and sibling links agree.
    pub open spec fn wf(&self) -> bool {
        dom_wf(self@)
    }

    /// A window whose tree holds the document node alone.
    pub fn new() -> (w: Self)
        ensures
            w@ == dom_empty(),
            w.wf(),
    {
        let mut nodes: Vec<Node> = Vec::new();
        nodes.push(Node::new(NodeKind::Document));
        let w = Self { nodes };
        proof {
            assert(w@ =~= dom_empty());
            lemma_root_links();
            assert(dom_links(w@) =~= seq![detached()]);
        }
        w
    }

    /// The document node.
    pub fn document(&self) -> (id: NodeId)
        ensures
            id == 0,
    {
        0
    }

    /// Number of nodes, the document included.
    pub fn len(&self) -> (n: usize)
        ensures
            n == self@.len(),
    {
        self.nodes.len()
    }

    /// The node at `id`.
    pub fn node(&self, id: NodeId) -> (n: &Node)
        requires
            id < self@.len(),
        ensures
            n@ == self@[id as int],
    {
        &self.nodes[id]
    }

    /// Appends a node of the given kind as the last child of `parent` and
    /// returns its index.
    pub fn append_child(&mut self, parent: NodeId, kind: NodeKind) -> (id: NodeId)
        requires
            old(self).wf(),
            parent < old(self)@.len(),
        ensures
            final(self).wf(),
            final(self)@ == dom_append(old(self)@, parent as int, kind@),
            id == old(self)@.len(),
    {
        let id = self.nodes.len();
        let old_last = self.nodes[parent].links.last_child;
        let ghost before = self@;
        proof {
            assert(node_ok(dom_links(before), parent as int));
        }
        self.nodes.push(
            Node {
                kind,
                links: Links {
                    parent: Some(parent),
                    first_child: None,
                    last_child: None,
                    previous_sibling: old_last,
                    next_sibling: None,
                },
            },
        );
        if self.nodes[parent].links.first_child.is_none() {
            self.nodes[parent].links.first_child = Some(id);
        }
        self.nodes[parent].links.last_child = Some(id);
        match old_last {
            Some(q) => {
                self.nodes[q].links.next_sibling = Some(id);
            },
            None => {},
        }
        proof {
            assert(self@ =~= dom_append(before, parent as int, kind@));
            assert(before.len() + 1 == self.nodes.len() <= usize::MAX);
            lemma_append_links(dom_links(before), parent as int);
            assert(dom_links(self@) =~= append_links(dom_links(before), parent as int));
        }
        id
    }

    /// Adds `c` to the end of the text of node `id`. A node that is not a
    /// text node is left unchanged.
    pub fn push_char(&mut self, id: NodeId, c: char)
        requires
            old(self).wf(),
            id < old(self)@.len(),
        ensures
            final(self).wf(),
            final(self)@ == dom_push_char(old(self)@, id as int, c),
    {
        let ghost before = self@;
        match &mut self.nodes[id].kind {
            NodeKind::Text(s) => {
                s.push(c);
            },
            _ => {},
        }
        proof {
            assert(self@ =~= dom_push_char(before, id as int, c));
            assert(dom_links(self@) =~= dom_links(before));
        }
    }
}

} // verus!
