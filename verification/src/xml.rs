//! An XML document as the list of its nodes, and the two lookups that the
//! session answers need: a child by its tag, and the text of such a child.
//!
//! `roxmltree` reads the document. Its nodes are listed in document order, the
//! root first, each with the place of its parent in the list.

use crate::text::same_text;
use vstd::prelude::*;

verus! {

/// One node of a document.
#[derive(Debug, PartialEq, Eq, Clone, Hash)]
pub struct XmlNode {
    /// Where the node's parent stands in the document; `None` for the root.
    pub parent: Option<usize>,
    /// Whether the node is an element, not text, a comment or the root.
    pub element: bool,
    /// The local name of an element's tag; empty for any other node.
    pub name: String,
    /// The text of a text node or a comment; for an element the text of its
    /// first child, if that is a text node.
    pub text: Option<String>,
}

/// A node with its strings as sequences of characters.
pub struct XmlNodeView {
    pub parent: Option<usize>,
    pub element: bool,
    pub name: Seq<char>,
    pub text: Option<Seq<char>>,
}

impl View for XmlNode {
    type V = XmlNodeView;

    open spec fn view(&self) -> XmlNodeView {
        XmlNodeView {
            parent: self.parent,
            element: self.element,
            name: self.name@,
            text: match self.text {
                Some(text) => Some(text@),
                None => None,
            },
        }
    }
}

/// A document: its nodes in document order. The first node is the root.
#[derive(Debug, PartialEq, Eq, Clone, Hash)]
pub struct XmlDocument {
    nodes: Vec<XmlNode>,
}

impl View for XmlDocument {
    type V = Seq<XmlNodeView>;

    closed spec fn view(&self) -> Seq<XmlNodeView> {
        Seq::new(self.nodes@.len(), |i: int| self.nodes@[i]@)
    }
}

/// The text is no well-formed XML document.
#[derive(Debug, PartialEq, Eq, Structural, Clone, Copy, Hash)]
pub struct XmlSyntaxError;

/// Why a lookup in a document found nothing.
#[derive(Debug, PartialEq, Eq, Clone, Copy, Hash)]
pub enum Error {
    /// The node has no child element with that tag.
    FieldNotFound(&'static str),
    /// The child element with that tag does not begin with text.
    NoText(&'static str),
}

/// The nodes of the document that `roxmltree` reads from `xml`, in document
/// order; `None` where `roxmltree` refuses `xml`.
pub uninterp spec fn xml_nodes(xml: Seq<char>) -> Option<Seq<XmlNodeView>>;

/// The views of a list of nodes.
pub open spec fn node_views(nodes: Seq<XmlNode>) -> Seq<XmlNodeView> {
    Seq::new(nodes.len(), |i: int| nodes[i]@)
}

/// Calls `roxmltree::Document::parse` and lists what `Document::descendants`
/// yields, which is every node in document order: for each node the index of
/// `Node::parent`, `Node::is_element`, the local name of `Node::tag_name` and
/// `Node::text`. Where `roxmltree` refuses the text, its error is dropped. The
/// list is a function of the text alone; the contract gives it its name and
/// claims no more.
#[verifier::external_body]
fn read_nodes(xml: &str) -> (nodes: Option<Vec<XmlNode>>)
    ensures
        match nodes {
            Some(list) => xml_nodes(xml@) == Some(node_views(list@)),
            None => xml_nodes(xml@).is_none(),
        },
{
    let doc = roxmltree::Document::parse(xml).ok()?;
    Some(
        doc.descendants().map(
            |node|
                XmlNode {
                    parent: node.parent().map(|parent| parent.id().get_usize()),
                    element: node.is_element(),
                    name: node.tag_name().name().to_string(),
                    text: node.text().map(str::to_string),
                },
        ).collect(),
    )
}

/// Node `child` is an element with the tag `tag` directly below node `parent`.
pub open spec fn is_tagged_child(
    nodes: Seq<XmlNodeView>,
    parent: int,
    tag: Seq<char>,
    child: int,
) -> bool {
    &&& 0 <= child < nodes.len()
    &&& nodes[child].parent == Some(parent as usize)
    &&& nodes[child].element
    &&& nodes[child].name == tag
}

/// Node `child` is the first element with the tag `tag` directly below `parent`.
pub open spec fn is_first_tagged_child(
    nodes: Seq<XmlNodeView>,
    parent: int,
    tag: Seq<char>,
    child: int,
) -> bool {
    &&& is_tagged_child(nodes, parent, tag, child)
    &&& forall|k: int| 0 <= k < child ==> !is_tagged_child(nodes, parent, tag, k)
}

/// The first element with the tag `tag` directly below `parent`, if there is one.
pub open spec fn spec_find_node(nodes: Seq<XmlNodeView>, parent: int, tag: Seq<char>) -> Option<
    int,
> {
    if exists|child: int| is_first_tagged_child(nodes, parent, tag, child) {
        Some(choose|child: int| is_first_tagged_child(nodes, parent, tag, child))
    } else {
        None
    }
}

/// The text with which the first element `tag` below `parent` begins.
pub open spec fn spec_find_text(nodes: Seq<XmlNodeView>, parent: int, tag: &'static str) -> Result<
    Seq<char>,
    Error,
> {
    match spec_find_node(nodes, parent, tag@) {
        None => Err(Error::FieldNotFound(tag)),
        Some(child) => match nodes[child].text {
            Some(text) => Ok(text),
            None => Err(Error::NoText(tag)),
        },
    }
}

/// Node `child` stands directly below `parent`, is an element and, where `tag`
/// names one, has that tag.
pub open spec fn is_selected(
    nodes: Seq<XmlNodeView>,
    parent: int,
    tag: Option<Seq<char>>,
    child: int,
) -> bool {
    &&& nodes[child].parent == Some(parent as usize)
    &&& nodes[child].element
    &&& tag matches Some(name) ==> nodes[child].name == name
}

/// The texts of the selected children of `parent` among the first `n` nodes, in
/// document order; `None` if one of those children has no text.
pub open spec fn child_texts_upto(
    nodes: Seq<XmlNodeView>,
    parent: int,
    tag: Option<Seq<char>>,
    n: int,
) -> Option<Seq<Seq<char>>>
    decreases n,
{
    if n <= 0 {
        Some(Seq::empty())
    } else {
        match child_texts_upto(nodes, parent, tag, n - 1) {
            None => None,
            Some(texts) => if is_selected(nodes, parent, tag, n - 1) {
                match nodes[n - 1].text {
                    Some(text) => Some(texts.push(text)),
                    None => None,
                }
            } else {
                Some(texts)
            },
        }
    }
}

/// The texts of the child elements of `parent`, of those with the tag `tag` where
/// one is named, in document order; `None` if one of them has no text.
pub open spec fn spec_child_texts(
    nodes: Seq<XmlNodeView>,
    parent: int,
    tag: Option<Seq<char>>,
) -> Option<Seq<Seq<char>>> {
    child_texts_upto(nodes, parent, tag, nodes.len() as int)
}

/// Whether any node stands directly below `parent`.
pub open spec fn spec_has_children(nodes: Seq<XmlNodeView>, parent: int) -> bool {
    exists|child: int| 0 <= child < nodes.len() && #[trigger] nodes[child].parent == Some(
        parent as usize,
    )
}

/// The characters of each string of a list.
pub open spec fn string_views(strings: Seq<String>) -> Seq<Seq<char>> {
    Seq::new(strings.len(), |i: int| strings[i]@)
}

/// The one first tagged child is the one that a lookup finds.
pub proof fn lemma_first_tagged_child(
    nodes: Seq<XmlNodeView>,
    parent: int,
    tag: Seq<char>,
    child: int,
)
    requires
        is_first_tagged_child(nodes, parent, tag, child),
    ensures
        spec_find_node(nodes, parent, tag) == Some(child),
{
    let chosen = choose|c: int| is_first_tagged_child(nodes, parent, tag, c);
    if chosen < child {
        assert(!is_tagged_child(nodes, parent, tag, chosen));
    } else if child < chosen {
        assert(!is_tagged_child(nodes, parent, tag, child));
    }
}

impl XmlDocument {
    /// Reads a document.
    pub fn parse(xml: &str) -> (doc: Result<XmlDocument, XmlSyntaxError>)
        ensures
            match xml_nodes(xml@) {
                Some(nodes) => doc matches Ok(d) && d@ == nodes,
                None => doc.is_err(),
            },
    {
        match read_nodes(xml) {
            Some(nodes) => {
                let doc = XmlDocument { nodes };
                assert(doc@ =~= node_views(doc.nodes@));
                Ok(doc)
            },
            None => Err(XmlSyntaxError),
        }
    }

    /// The document that holds the given nodes, in their order.
    pub fn from_nodes(nodes: Vec<XmlNode>) -> (doc: XmlDocument)
        ensures
            doc@ == node_views(nodes@),
    {
        let doc = XmlDocument { nodes };
        assert(doc@ =~= node_views(doc.nodes@));
        doc
    }

    /// The place of the root: the first node.
    pub fn root(&self) -> (root: usize)
        ensures
            root == 0,
    {
        0
    }

    /// How many nodes the document has.
    pub fn len(&self) -> (len: usize)
        ensures
            len == self@.len(),
    {
        self.nodes.len()
    }

    /// Whether any node stands directly below `node`.
    pub fn has_children(&self, node: usize) -> (found: bool)
        ensures
            found == spec_has_children(self@, node as int),
    {
        let mut i: usize = 0;
        while i < self.nodes.len()
            invariant
                i <= self.nodes.len(),
                forall|k: int| 0 <= k < i ==> (#[trigger] self@[k]).parent != Some(node),
            decreases self.nodes.len() - i,
        {
            assert(self@[i as int] == self.nodes@[i as int]@);
            match self.nodes[i].parent {
                Some(parent) => {
                    if parent == node {
                        return true;
                    }
                },
                None => {},
            }
            i += 1;
        }
        false
    }

    /// The texts of the child elements of `node`, of those with the tag `tag`
    /// where one is named, in document order; `None` if one of them does not
    /// begin with text.
    pub fn child_texts(&self, node: usize, tag: Option<&str>) -> (texts: Option<Vec<String>>)
        ensures
            match spec_child_texts(self@, node as int, tag_view(tag)) {
                Some(expected) => texts matches Some(found) && string_views(found@) == expected,
                None => texts.is_none(),
            },
    {
        let mut texts: Option<Vec<String>> = Some(Vec::new());
        let mut i: usize = 0;
        assert(string_views(Seq::<String>::empty()) =~= Seq::<Seq<char>>::empty());
        while i < self.nodes.len()
            invariant
                i <= self.nodes.len(),
                match child_texts_upto(self@, node as int, tag_view(tag), i as int) {
                    Some(expected) => texts matches Some(found) && string_views(found@)
                        == expected,
                    None => texts.is_none(),
                },
            decreases self.nodes.len() - i,
        {
            assert(self@[i as int] == self.nodes@[i as int]@);
            let current = &self.nodes[i];
            let below = match current.parent {
                Some(parent) => parent == node,
                None => false,
            };
            let tagged = match tag {
                Some(name) => same_text(current.name.as_str(), name),
                None => true,
            };
            if below && current.element && tagged {
                texts = match texts {
                    None => None,
                    Some(mut found) => match &current.text {
                        Some(text) => {
                            let ghost before = found@;
                            found.push(text.clone());
                            assert(string_views(found@) =~= string_views(before).push(text@));
                            Some(found)
                        },
                        None => None,
                    },
                };
            }
            i += 1;
        }
        texts
    }
}

/// The characters of an optional tag.
pub open spec fn tag_view(tag: Option<&str>) -> Option<Seq<char>> {
    match tag {
        Some(name) => Some(name@),
        None => None,
    }
}

/// Finds the first element with the tag `tag` directly below `node`.
pub fn find_node_by_tag(doc: &XmlDocument, node: usize, tag: &'static str) -> (found: Result<
    usize,
    Error,
>)
    ensures
        match found {
            Ok(child) => spec_find_node(doc@, node as int, tag@) == Some(child as int) && child
                < doc@.len(),
            Err(e) => spec_find_node(doc@, node as int, tag@).is_none() && e
                == Error::FieldNotFound(tag),
        },
{
    let mut i: usize = 0;
    while i < doc.nodes.len()
        invariant
            i <= doc.nodes.len(),
            forall|k: int| 0 <= k < i ==> !is_tagged_child(doc@, node as int, tag@, k),
        decreases doc.nodes.len() - i,
    {
        assert(doc@[i as int] == doc.nodes@[i as int]@);
        let current = &doc.nodes[i];
        let below = match current.parent {
            Some(parent) => parent == node,
            None => false,
        };
        if below && current.element && same_text(current.name.as_str(), tag) {
            proof {
                lemma_first_tagged_child(doc@, node as int, tag@, i as int);
            }
            return Ok(i);
        }
        i += 1;
    }
    Err(Error::FieldNotFound(tag))
}

/// Finds the text with which the first element `tag` directly below `node`
/// begins.
pub fn find_text_by_tag<'a>(doc: &'a XmlDocument, node: usize, tag: &'static str) -> (found: Result<
    &'a str,
    Error,
>)
    ensures
        match spec_find_text(doc@, node as int, tag) {
            Ok(text) => found matches Ok(s) && s@ == text,
            Err(e) => found matches Err(err) && err == e,
        },
{
    match find_node_by_tag(doc, node, tag) {
        Ok(child) => {
            assert(doc@[child as int] == doc.nodes@[child as int]@);
            match &doc.nodes[child].text {
                Some(text) => Ok(text.as_str()),
                None => Err(Error::NoText(tag)),
            }
        },
        Err(e) => Err(e),
    }
}

} // verus!
