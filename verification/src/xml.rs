//! An XML document as the list of its nodes in document order.
use crate::text::str_eq;
use vstd::prelude::*;

verus! {

/// One node of a document. The links are indices into the list of nodes.
#[derive(Debug, Clone, PartialEq, Eq)]
pub struct XmlNode {
    pub is_element: bool,
    /// The local name of an element; empty for any other node.
    pub name: String,
    /// The text of a text node or a comment; for an element the text of its
    /// first child, where that is a text node.
    pub text: Option<String>,
    pub first_child: Option<usize>,
    pub next_sibling: Option<usize>,
}

/// The mathematical value of an [`XmlNode`].
pub struct XmlNodeView {
    pub is_element: bool,
    pub name: Seq<char>,
    pub text: Option<Seq<char>>,
    pub first_child: Option<usize>,
    pub next_sibling: Option<usize>,
}

impl View for XmlNode {
    type V = XmlNodeView;

    open spec fn view(&self) -> XmlNodeView {
        XmlNodeView {
            is_element: self.is_element,
            name: self.name@,
            text: match self.text {
                Some(t) => Some(t@),
                None => None,
            },
            first_child: self.first_child,
            next_sibling: self.next_sibling,
        }
    }
}

/// The values of a list of nodes.
pub open spec fn nodes_view(s: Seq<XmlNode>) -> Seq<XmlNodeView> {
    s.map_values(|n: XmlNode| n@)
}

/// The name of the nodes of the document that a text holds, the root node
/// first; none where the text is no well-formed document.
pub uninterp spec fn xml_document(text: Seq<char>) -> Option<Seq<XmlNodeView>>;

/// The name of the message of the error that the parser gives for a text
/// that is no well-formed document: what `Display` shows of the
/// `roxmltree::Error`.
pub uninterp spec fn xml_error(text: Seq<char>) -> Seq<char>;

/// `roxmltree::Document::parse`, and of each node of `Document::descendants`
/// what `Node::is_element`, `Node::tag_name`, `Node::text`,
/// `Node::first_child` and `Node::next_sibling` return, the last two as the
/// node's index. An error is the text that `Display` shows of the parser's
/// error.
#[verifier::external_body]
pub(crate) fn parse_xml(text: &str) -> (r: Result<Vec<XmlNode>, String>)
    ensures
        match r {
            Ok(v) => xml_document(text@) == Some(nodes_view(v@)),
            Err(m) => xml_document(text@) is None && m@ == xml_error(text@),
        },
{
    let doc = roxmltree::Document::parse(text).map_err(|e| e.to_string())?;
    Ok(doc.descendants().map(|n| XmlNode {
        is_element: n.is_element(),
        name: n.tag_name().name().to_string(),
        text: n.text().map(|t| t.to_string()),
        first_child: n.first_child().map(|c| c.id().get_usize()),
        next_sibling: n.next_sibling().map(|c| c.id().get_usize()),
    }).collect())
}

/// The node that a link of the node at `from` leads to: none where the
/// link is absent, or does not point forward and into the list.
pub open spec fn follow(nodes: Seq<XmlNodeView>, from: int, link: Option<usize>) -> Option<int> {
    match link {
        Some(to) => if from < to && to < nodes.len() {
            Some(to as int)
        } else {
            None
        },
        None => None,
    }
}

/// The node at `start` and the siblings after it.
pub open spec fn siblings_from(nodes: Seq<XmlNodeView>, start: Option<int>) -> Seq<int>
    decreases
            match start {
                Some(c) => nodes.len() - c,
                None => 0,
            },
{
    match start {
        Some(c) => if 0 <= c < nodes.len() {
            seq![c] + siblings_from(nodes, follow(nodes, c, nodes[c].next_sibling))
        } else {
            Seq::empty()
        },
        None => Seq::empty(),
    }
}

/// The children of the node at `i`, in document order.
pub open spec fn children(nodes: Seq<XmlNodeView>, i: int) -> Seq<int> {
    if 0 <= i < nodes.len() {
        siblings_from(nodes, follow(nodes, i, nodes[i].first_child))
    } else {
        Seq::empty()
    }
}

/// Whether the node at `i` is an element of the given local name.
pub open spec fn has_tag(nodes: Seq<XmlNodeView>, i: int, tag: Seq<char>) -> bool {
    0 <= i < nodes.len() && nodes[i].is_element && nodes[i].name == tag
}

/// The first of `among` that is an element of the given local name.
pub open spec fn first_with_tag(nodes: Seq<XmlNodeView>, among: Seq<int>, tag: Seq<char>) -> Option<
    int,
>
    decreases among.len(),
{
    if among.len() == 0 {
        None
    } else if has_tag(nodes, among[0], tag) {
        Some(among[0])
    } else {
        first_with_tag(nodes, among.drop_first(), tag)
    }
}

/// The node that a link of the node at `from` leads to.
pub(crate) fn follow_link(nodes: &Vec<XmlNode>, from: usize, link: Option<usize>) -> (r: Option<
    usize,
>)
    ensures
        match r {
            Some(to) => follow(nodes_view(nodes@), from as int, link) == Some(to as int) && from
                < to < nodes@.len(),
            None => follow(nodes_view(nodes@), from as int, link) is None,
        },
{
    match link {
        Some(to) => if from < to && to < nodes.len() {
            Some(to)
        } else {
            None
        },
        None => None,
    }
}

/// The first child of the node at `i`.
pub(crate) fn first_child(nodes: &Vec<XmlNode>, i: usize) -> (r: Option<usize>)
    requires
        i < nodes@.len(),
    ensures
        match r {
            Some(c) => follow(nodes_view(nodes@), i as int, nodes@[i as int].first_child) == Some(
                c as int,
            ) && i < c < nodes@.len(),
            None => follow(nodes_view(nodes@), i as int, nodes@[i as int].first_child) is None,
        },
        children(nodes_view(nodes@), i as int) == siblings_from(
            nodes_view(nodes@),
            match r {
                Some(c) => Some(c as int),
                None => None,
            },
        ),
{
    let r = follow_link(nodes, i, nodes[i].first_child);
    r
}

/// The sibling after the node at `i`.
pub(crate) fn next_sibling(nodes: &Vec<XmlNode>, i: usize) -> (r: Option<usize>)
    requires
        i < nodes@.len(),
    ensures
        match r {
            Some(c) => i < c < nodes@.len(),
            None => true,
        },
        siblings_from(nodes_view(nodes@), Some(i as int)) == seq![i as int] + siblings_from(
            nodes_view(nodes@),
            match r {
                Some(c) => Some(c as int),
                None => None,
            },
        ),
{
    let r = follow_link(nodes, i, nodes[i].next_sibling);
    r
}

/// Whether the node at `i` is an element of the given local name.
pub(crate) fn has_tag_name(nodes: &Vec<XmlNode>, i: usize, tag: &str) -> (r: bool)
    requires
        i < nodes@.len(),
    ensures
        r == has_tag(nodes_view(nodes@), i as int, tag@),
{
    nodes[i].is_element && str_eq(nodes[i].name.as_str(), tag)
}

/// The first child of the node at `i` that is an element of the given
/// local name.
pub(crate) fn find_child(nodes: &Vec<XmlNode>, i: usize, tag: &str) -> (r: Option<usize>)
    requires
        i < nodes@.len(),
    ensures
        match r {
            Some(c) => first_with_tag(
                nodes_view(nodes@),
                children(nodes_view(nodes@), i as int),
                tag@,
            ) == Some(c as int) && c < nodes@.len(),
            None => first_with_tag(
                nodes_view(nodes@),
                children(nodes_view(nodes@), i as int),
                tag@,
            ) is None,
        },
{
    let ghost ns = nodes_view(nodes@);
    let mut cur = first_child(nodes, i);
    loop
        invariant
            ns == nodes_view(nodes@),
            i < nodes@.len(),
            cur matches Some(c) ==> c < nodes@.len(),
            first_with_tag(ns, children(ns, i as int), tag@) == first_with_tag(
                ns,
                siblings_from(
                    ns,
                    match cur {
                        Some(c) => Some(c as int),
                        None => None,
                    },
                ),
                tag@,
            ),
        decreases
                match cur {
                    Some(c) => nodes@.len() - c,
                    None => 0,
                },
    {
        match cur {
            None => {
                return None;
            },
            Some(c) => {
                let next = next_sibling(nodes, c);
                proof {
                    let rest = siblings_from(
                        ns,
                        match next {
                            Some(c) => Some(c as int),
                            None => None,
                        },
                    );
                    assert((seq![c as int] + rest).drop_first() =~= rest);
                }
                if has_tag_name(nodes, c, tag) {
                    return Some(c);
                }
                cur = next;
            },
        }
    }
}

} // verus!
