//! The list of parts in the body of a request to complete an upload.
use crate::error::{Error, ErrorView};
use crate::text::{parse_u64, parse_u64_spec, strip_one_quote, strip_quote_pair};
use crate::xml::{
    children, find_child, first_child, first_with_tag, has_tag, has_tag_name, next_sibling,
    nodes_view, parse_xml, siblings_from, xml_document, xml_error, XmlNode, XmlNodeView,
};
use vstd::prelude::*;

verus! {

/// One part as the request to complete an upload lists it.
#[derive(Debug, Clone, PartialEq, Eq)]
pub struct CompleteMultipartUploadPart {
    pub etag: String,
    pub part_number: u64,
}

/// The mathematical value of a [`CompleteMultipartUploadPart`].
pub struct PartView {
    pub etag: Seq<char>,
    pub part_number: u64,
}

impl View for CompleteMultipartUploadPart {
    type V = PartView;

    open spec fn view(&self) -> PartView {
        PartView { etag: self.etag@, part_number: self.part_number }
    }
}

/// The values of a list of parts.
pub open spec fn parts_view(s: Seq<CompleteMultipartUploadPart>) -> Seq<PartView> {
    s.map_values(|p: CompleteMultipartUploadPart| p@)
}

/// The text of the first child of the node at `i` that is an element of the
/// given local name.
pub open spec fn child_text(nodes: Seq<XmlNodeView>, i: int, tag: Seq<char>) -> Option<Seq<char>> {
    match first_with_tag(nodes, children(nodes, i), tag) {
        Some(c) => nodes[c].text,
        None => None,
    }
}

/// The part that a `Part` element at `i` lists: its `ETag` without one
/// double quote at either end, and its `PartNumber` read as a number. None
/// where either is missing, is empty, or the number is no number.
pub open spec fn part_of(nodes: Seq<XmlNodeView>, i: int) -> Option<PartView> {
    match (child_text(nodes, i, "ETag"@), child_text(nodes, i, "PartNumber"@)) {
        (Some(etag), Some(number)) => match parse_u64_spec(number) {
            Some(n) => Some(PartView { etag: strip_one_quote(etag), part_number: n }),
            None => None,
        },
        _ => None,
    }
}

/// The parts that the nodes `items` list: those that are no elements do not
/// count, and an element has to be a `Part` that lists a part.
pub open spec fn parts_of(nodes: Seq<XmlNodeView>, items: Seq<int>) -> Option<Seq<PartView>>
    decreases items.len(),
{
    if items.len() == 0 {
        Some(Seq::empty())
    } else {
        match parts_of(nodes, items.drop_last()) {
            None => None,
            Some(before) => {
                let i = items.last();
                if !(0 <= i < nodes.len()) || !nodes[i].is_element {
                    Some(before)
                } else if nodes[i].name == "Part"@ {
                    match part_of(nodes, i) {
                        Some(p) => Some(before.push(p)),
                        None => None,
                    }
                } else {
                    None
                }
            },
        }
    }
}

/// The parts that the body of a request to complete an upload lists: the
/// first node of the document has to be an element
/// `CompleteMultipartUpload`, and its children list the parts.
pub open spec fn multipart_parts(nodes: Seq<XmlNodeView>) -> Option<Seq<PartView>> {
    let top = children(nodes, 0);
    if top.len() > 0 && has_tag(nodes, top[0], "CompleteMultipartUpload"@) {
        parts_of(nodes, children(nodes, top[0]))
    } else {
        None
    }
}

fn parse_part(nodes: &Vec<XmlNode>, i: usize) -> (r: Option<CompleteMultipartUploadPart>)
    requires
        i < nodes@.len(),
    ensures
        match r {
            Some(p) => part_of(nodes_view(nodes@), i as int) == Some(p@),
            None => part_of(nodes_view(nodes@), i as int) is None,
        },
{
    let etag_node = match find_child(nodes, i, "ETag") {
        Some(c) => c,
        None => {
            return None;
        },
    };
    let etag = match &nodes[etag_node].text {
        Some(t) => t,
        None => {
            return None;
        },
    };
    let number_node = match find_child(nodes, i, "PartNumber") {
        Some(c) => c,
        None => {
            return None;
        },
    };
    let number = match &nodes[number_node].text {
        Some(t) => t,
        None => {
            return None;
        },
    };
    let part_number = match parse_u64(number.as_str()) {
        Some(n) => n,
        None => {
            return None;
        },
    };
    let stripped = strip_quote_pair(etag.as_str());
    Some(CompleteMultipartUploadPart { etag: String::from_str(stripped), part_number })
}

/// Reads the list of parts from the nodes of the body of a request to
/// complete an upload.
pub fn parse_complete_multipart_upload_body(nodes: &Vec<XmlNode>) -> (r: Option<
    Vec<CompleteMultipartUploadPart>,
>)
    ensures
        match r {
            Some(parts) => multipart_parts(nodes_view(nodes@)) == Some(parts_view(parts@)),
            None => multipart_parts(nodes_view(nodes@)) is None,
        },
{
    let ghost ns = nodes_view(nodes@);
    if nodes.len() == 0 {
        return None;
    }
    let cmu = match first_child(nodes, 0) {
        Some(c) => c,
        None => {
            return None;
        },
    };
    if !has_tag_name(nodes, cmu, "CompleteMultipartUpload") {
        return None;
    }
    let mut parts: Vec<CompleteMultipartUploadPart> = Vec::new();
    let ghost mut done: Seq<int> = Seq::empty();
    let mut cur = first_child(nodes, cmu);
    loop
        invariant
            ns == nodes_view(nodes@),
            cmu < nodes@.len(),
            multipart_parts(ns) == parts_of(ns, children(ns, cmu as int)),
            cur matches Some(c) ==> c < nodes@.len(),
            children(ns, cmu as int) == done + siblings_from(
                ns,
                match cur {
                    Some(c) => Some(c as int),
                    None => None,
                },
            ),
            parts_of(ns, done) == Some(parts_view(parts@)),
        decreases
                match cur {
                    Some(c) => nodes@.len() - c,
                    None => 0,
                },
    {
        match cur {
            None => {
                return Some(parts);
            },
            Some(c) => {
                let next = next_sibling(nodes, c);
                let ghost all = done.push(c as int);
                let ghost rest = siblings_from(
                    ns,
                    match next {
                        Some(n) => Some(n as int),
                        None => None,
                    },
                );
                proof {
                    assert(all.drop_last() =~= done);
                    assert(done + (seq![c as int] + rest) =~= all + rest);
                }
                if nodes[c].is_element {
                    if has_tag_name(nodes, c, "Part") {
                        match parse_part(nodes, c) {
                            Some(p) => {
                                parts.push(p);
                            },
                            None => {
                                proof {
                                    lemma_parts_of_fails(ns, all, rest);
                                }
                                return None;
                            },
                        }
                    } else {
                        proof {
                            lemma_parts_of_fails(ns, all, rest);
                        }
                        return None;
                    }
                }
                proof {
                    done = all;
                }
                cur = next;
            },
        }
    }
}

/// Once a prefix of a list of nodes lists no parts, the whole list lists
/// none.
proof fn lemma_parts_of_fails(nodes: Seq<XmlNodeView>, prefix: Seq<int>, rest: Seq<int>)
    requires
        parts_of(nodes, prefix) is None,
    ensures
        parts_of(nodes, prefix + rest) is None,
    decreases rest.len(),
{
    if rest.len() > 0 {
        lemma_parts_of_fails(nodes, prefix, rest.drop_last());
        assert((prefix + rest).drop_last() =~= prefix + rest.drop_last());
    }
}

/// The list of parts that the body of a request to complete an upload
/// holds: a body that is no XML document is an error `InvalidXML` with the
/// message of the parser, and a document that does not list parts an error
/// `BadRequest`.
pub open spec fn parts_of_body(body: Seq<char>) -> Result<Seq<PartView>, ErrorView> {
    match xml_document(body) {
        None => Err(ErrorView::InvalidXML(xml_error(body))),
        Some(nodes) => match multipart_parts(nodes) {
            Some(parts) => Ok(parts),
            None => Err(ErrorView::BadRequest("Invalid CompleteMultipartUpload XML"@)),
        },
    }
}

/// Reads the list of parts from the body of a request to complete an
/// upload.
pub fn parse_complete_multipart_upload(body: &str) -> (r: Result<
    Vec<CompleteMultipartUploadPart>,
    Error,
>)
    ensures
        match r {
            Ok(parts) => parts_of_body(body@) == Ok::<Seq<PartView>, ErrorView>(parts_view(parts@)),
            Err(e) => parts_of_body(body@) == Err::<Seq<PartView>, ErrorView>(e@),
        },
{
    let nodes = match parse_xml(body) {
        Ok(n) => n,
        Err(m) => {
            return Err(Error::InvalidXML(m));
        },
    };
    match parse_complete_multipart_upload_body(&nodes) {
        Some(parts) => Ok(parts),
        None => Err(Error::bad_request("Invalid CompleteMultipartUpload XML")),
    }
}

} // verus!
