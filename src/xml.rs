use vstd::prelude::*;

use crate::err::{internal, internal_for, invalid_response, no_such_tag, no_text_for, Error, ErrorKind};
use crate::text::text_eq;

verus! {

/// One node of a parsed document: its kind, local tag name, attributes in
/// document order, text, and the positions of its children in the document.
#[derive(Debug, Clone)]
pub struct XmlNode {
    pub element: bool,
    pub tag: String,
    pub attributes: Vec<(String, String)>,
    pub text: Option<String>,
    pub children: Vec<usize>,
}

pub struct NodeView {
    pub element: bool,
    pub tag: Seq<char>,
    pub attributes: Seq<(Seq<char>, Seq<char>)>,
    pub text: Option<Seq<char>>,
    pub children: Seq<usize>,
}

impl View for XmlNode {
    type V = NodeView;

    open spec fn view(&self) -> NodeView {
        NodeView {
            element: self.element,
            tag: self.tag@,
            attributes: self.attributes.deep_view(),
            text: self.text.deep_view(),
            children: self.children@,
        }
    }
}

pub open spec fn nodes_view(v: Seq<XmlNode>) -> Seq<NodeView> {
    v.map_values(|n: XmlNode| n@)
}

/// Every child position names a node of the document.
pub open spec fn doc_wf(d: Seq<NodeView>) -> bool {
    forall|i: int, k: int|
        0 <= i < d.len() && 0 <= k < d[i].children.len() ==> #[trigger] d[i].children[k] < d.len()
}

/// A child that is an element with the given local name.
pub open spec fn is_tagged(d: Seq<NodeView>, c: usize, tag: Seq<char>) -> bool {
    c < d.len() && d[c as int].element && d[c as int].tag == tag
}

/// The first of `cs` that is an element with the given name.
pub open spec fn first_tagged(d: Seq<NodeView>, cs: Seq<usize>, tag: Seq<char>) -> Option<usize>
    decreases cs.len(),
{
    if cs.len() == 0 {
        None
    } else if is_tagged(d, cs[0], tag) {
        Some(cs[0])
    } else {
        first_tagged(d, cs.drop_first(), tag)
    }
}

/// Those of `cs` that are elements with the given name, in order.
pub open spec fn all_tagged(d: Seq<NodeView>, cs: Seq<usize>, tag: Seq<char>) -> Seq<usize>
    decreases cs.len(),
{
    if cs.len() == 0 {
        seq![]
    } else if is_tagged(d, cs.last(), tag) {
        all_tagged(d, cs.drop_last(), tag).push(cs.last())
    } else {
        all_tagged(d, cs.drop_last(), tag)
    }
}

/// Those of `cs` that are elements, in order.
pub open spec fn all_elements(d: Seq<NodeView>, cs: Seq<usize>) -> Seq<usize>
    decreases cs.len(),
{
    if cs.len() == 0 {
        seq![]
    } else if cs.last() < d.len() && d[cs.last() as int].element {
        all_elements(d, cs.drop_last()).push(cs.last())
    } else {
        all_elements(d, cs.drop_last())
    }
}

/// The value of the first attribute with the given name.
pub open spec fn attribute_of(attrs: Seq<(Seq<char>, Seq<char>)>, name: Seq<char>) -> Option<
    Seq<char>,
>
    decreases attrs.len(),
{
    if attrs.len() == 0 {
        None
    } else if attrs[0].0 == name {
        Some(attrs[0].1)
    } else {
        attribute_of(attrs.drop_first(), name)
    }
}

/// The document's top element: the first element below the document node.
pub open spec fn root_element(d: Seq<NodeView>) -> Option<usize> {
    if d.len() == 0 {
        None
    } else {
        let es = all_elements(d, d[0].children);
        if es.len() == 0 {
            None
        } else {
            Some(es[0])
        }
    }
}

/// The text of the first child with the given name; a missing child or a
/// missing text gives the message of the failure.
pub open spec fn child_text(d: Seq<NodeView>, i: int, tag: Seq<char>) -> Result<Seq<char>, Seq<char>> {
    match first_tagged(d, d[i].children, tag) {
        Some(c) => match d[c as int].text {
            Some(t) => Ok(t),
            None => Err(no_text_for(tag)),
        },
        None => Err(no_such_tag(tag)),
    }
}

/// The message of a document without a top element.
pub open spec fn no_root() -> Seq<char> {
    "No root element"@
}

/// The node list that roxmltree builds from a text, in document order with the
/// document node first; or, where the text is not well-formed, roxmltree's
/// description of the fault.
pub uninterp spec fn xml_tree_of(text: Seq<char>) -> Result<Seq<NodeView>, Seq<char>>;

/// Relies on roxmltree::Document::parse to build the tree, and on
/// Document::descendants, which lists the nodes in the order of their NodeId
/// (so a child's id is its position in the list, and in range).
#[verifier::external_body]
fn read_nodes(text: &str) -> (r: Result<Vec<XmlNode>, String>)
    ensures
        match r {
            Ok(v) => xml_tree_of(text@) == Ok::<Seq<NodeView>, Seq<char>>(nodes_view(v@)),
            Err(m) => xml_tree_of(text@) == Err::<Seq<NodeView>, Seq<char>>(m@),
        },
        r matches Ok(v) ==> doc_wf(nodes_view(v@)),
{
    let doc = roxmltree::Document::parse(text).map_err(|e| e.to_string())?;
    Ok(doc.descendants().map(|n| XmlNode {
        element: n.is_element(),
        tag: n.tag_name().name().to_string(),
        attributes: n.attributes().map(|a| (a.name().to_string(), a.value().to_string())).collect(),
        text: n.text().map(String::from),
        children: n.children().map(|c| c.id().get_usize()).collect(),
    }).collect())
}

/// A parsed document: nodes addressed by position, each child position in range.
#[derive(Debug, Clone)]
pub struct XmlDoc {
    nodes: Vec<XmlNode>,
}

impl View for XmlDoc {
    type V = Seq<NodeView>;

    closed spec fn view(&self) -> Seq<NodeView> {
        nodes_view(self.nodes@)
    }
}

impl XmlDoc {
    pub open spec fn wf(&self) -> bool {
        doc_wf(self@)
    }

    /// Builds a document from its nodes; `None` where a child position is out of range.
    pub fn from_nodes(nodes: Vec<XmlNode>) -> (r: Option<XmlDoc>)
        ensures
            r is Some <==> doc_wf(nodes_view(nodes@)),
            r matches Some(doc) ==> doc@ == nodes_view(nodes@) && doc.wf(),
    {
        let ghost d = nodes_view(nodes@);
        let n = nodes.len();
        let mut i: usize = 0;
        while i < n
            invariant
                n == nodes@.len(),
                d == nodes_view(nodes@),
                i <= n,
                forall|a: int, k: int|
                    0 <= a < i && 0 <= k < d[a].children.len() ==> #[trigger] d[a].children[k] < n,
            decreases n - i,
        {
            let cs = &nodes[i].children;
            let mut k: usize = 0;
            while k < cs.len()
                invariant
                    n == nodes@.len(),
                    d == nodes_view(nodes@),
                    i < n,
                    cs@ == d[i as int].children,
                    k <= cs@.len(),
                    forall|a: int, j: int|
                        0 <= a < i && 0 <= j < d[a].children.len() ==> #[trigger] d[a].children[j] < n,
                    forall|j: int| 0 <= j < k ==> #[trigger] d[i as int].children[j] < n,
                decreases cs@.len() - k,
            {
                if cs[k] >= n {
                    assert(d[i as int].children[k as int] >= d.len());
                    return None;
                }
                k = k + 1;
            }
            i = i + 1;
        }
        Some(XmlDoc { nodes })
    }

    /// Parses a document; a text that is not well-formed markup is an invalid response.
    pub fn from_text(text: &str) -> (r: Result<XmlDoc, Error>)
        ensures
            match xml_tree_of(text@) {
                Err(m) => r matches Err(e) && e@ == (ErrorKind::InvalidResponse, m),
                Ok(d) => r matches Ok(doc) && doc@ == d && doc.wf(),
            },
    {
        match read_nodes(text) {
            Err(msg) => Err(invalid_response(msg.as_str())),
            Ok(nodes) => match XmlDoc::from_nodes(nodes) {
                Some(doc) => Ok(doc),
                None => Err(internal("child position out of range")),
            },
        }
    }

    pub fn len(&self) -> (r: usize)
        ensures
            r == self@.len(),
    {
        self.nodes.len()
    }

    pub fn node(&self, i: usize) -> (r: &XmlNode)
        requires
            i < self@.len(),
        ensures
            r@ == self@[i as int],
    {
        &self.nodes[i]
    }

    /// The first element below the document node.
    pub fn root_element(&self) -> (r: Result<usize, Error>)
        requires
            self.wf(),
        ensures
            match root_element(self@) {
                Some(e) => r == Ok::<usize, Error>(e),
                None => r matches Err(e) && e@ == (ErrorKind::Internal, no_root()),
            },
            r matches Ok(e) ==> e < self@.len(),
    {
        if self.nodes.len() == 0 {
            return Err(internal("No root element"));
        }
        let es = self.element_children(0);
        if es.len() == 0 {
            Err(internal("No root element"))
        } else {
            Ok(es[0])
        }
    }

    /// The children of node `i` that are elements, in order.
    pub fn element_children(&self, i: usize) -> (r: Vec<usize>)
        requires
            self.wf(),
            i < self@.len(),
        ensures
            r@ == all_elements(self@, self@[i as int].children),
            forall|k: int| 0 <= k < r@.len() ==> #[trigger] r@[k] < self@.len(),
    {
        let ghost d = self@;
        let cs = &self.nodes[i].children;
        let mut out: Vec<usize> = Vec::new();
        let mut k: usize = 0;
        while k < cs.len()
            invariant
                d == self@,
                doc_wf(d),
                i < d.len(),
                cs@ == d[i as int].children,
                k <= cs@.len(),
                out@ == all_elements(d, cs@.subrange(0, k as int)),
                forall|j: int| 0 <= j < out@.len() ==> #[trigger] out@[j] < d.len(),
            decreases cs@.len() - k,
        {
            let c = cs[k];
            assert(d[i as int].children[k as int] < d.len());
            assert(cs@.subrange(0, k + 1).drop_last() =~= cs@.subrange(0, k as int));
            if self.nodes[c].element {
                out.push(c);
            }
            k = k + 1;
        }
        assert(cs@.subrange(0, cs@.len() as int) =~= cs@);
        out
    }

    /// The children of node `i` that are elements named `tag`, in order.
    pub fn children_tagged(&self, i: usize, tag: &str) -> (r: Vec<usize>)
        requires
            self.wf(),
            i < self@.len(),
        ensures
            r@ == all_tagged(self@, self@[i as int].children, tag@),
            forall|k: int| 0 <= k < r@.len() ==> #[trigger] r@[k] < self@.len(),
    {
        let ghost d = self@;
        let cs = &self.nodes[i].children;
        let mut out: Vec<usize> = Vec::new();
        let mut k: usize = 0;
        while k < cs.len()
            invariant
                d == self@,
                doc_wf(d),
                i < d.len(),
                cs@ == d[i as int].children,
                k <= cs@.len(),
                out@ == all_tagged(d, cs@.subrange(0, k as int), tag@),
                forall|j: int| 0 <= j < out@.len() ==> #[trigger] out@[j] < d.len(),
            decreases cs@.len() - k,
        {
            let c = cs[k];
            assert(d[i as int].children[k as int] < d.len());
            assert(cs@.subrange(0, k + 1).drop_last() =~= cs@.subrange(0, k as int));
            let node = &self.nodes[c];
            if node.element && text_eq(node.tag.as_str(), tag) {
                out.push(c);
            }
            k = k + 1;
        }
        assert(cs@.subrange(0, cs@.len() as int) =~= cs@);
        out
    }

    /// The first child of node `i` that is an element named `tag`.
    pub fn find_first_child(&self, i: usize, tag: &str) -> (r: Result<usize, Error>)
        requires
            self.wf(),
            i < self@.len(),
        ensures
            match first_tagged(self@, self@[i as int].children, tag@) {
                Some(c) => r == Ok::<usize, Error>(c),
                None => r matches Err(e) && e@ == (ErrorKind::Internal, no_such_tag(tag@)),
            },
            r matches Ok(c) ==> c < self@.len(),
    {
        let ghost d = self@;
        let cs = &self.nodes[i].children;
        let mut k: usize = 0;
        assert(cs@.subrange(0, cs@.len() as int) =~= cs@);
        while k < cs.len()
            invariant
                d == self@,
                doc_wf(d),
                i < d.len(),
                cs@ == d[i as int].children,
                k <= cs@.len(),
                first_tagged(d, cs@, tag@) == first_tagged(d, cs@.subrange(k as int, cs@.len() as int), tag@),
            decreases cs@.len() - k,
        {
            let c = cs[k];
            assert(d[i as int].children[k as int] < d.len());
            let ghost rest = cs@.subrange(k as int, cs@.len() as int);
            assert(rest.drop_first() =~= cs@.subrange(k + 1, cs@.len() as int));
            let node = &self.nodes[c];
            if node.element && text_eq(node.tag.as_str(), tag) {
                return Ok(c);
            }
            k = k + 1;
        }
        Err(internal_for("No such tag: ", tag))
    }

    /// The text of the first child of node `i` named `tag`; missing child or
    /// missing text is an internal error.
    pub fn find_first_child_text(&self, i: usize, tag: &str) -> (r: Result<String, Error>)
        requires
            self.wf(),
            i < self@.len(),
        ensures
            match child_text(self@, i as int, tag@) {
                Ok(t) => r matches Ok(s) && s@ == t,
                Err(m) => r matches Err(e) && e@ == (ErrorKind::Internal, m),
            },
    {
        let c = self.find_first_child(i, tag)?;
        match &self.nodes[c].text {
            Some(t) => Ok(t.clone()),
            None => Err(internal_for("No text for: ", tag)),
        }
    }

    /// The value of the first attribute of node `i` named `name`.
    pub fn attribute(&self, i: usize, name: &str) -> (r: Option<String>)
        requires
            i < self@.len(),
        ensures
            i < self@.len() && r.deep_view() == attribute_of(self@[i as int].attributes, name@),
    {
        let attrs = &self.nodes[i].attributes;
        let ghost av = attrs.deep_view();
        let mut k: usize = 0;
        assert(av.subrange(0, av.len() as int) =~= av);
        while k < attrs.len()
            invariant
                i < self@.len(),
                av == attrs.deep_view(),
                av == self@[i as int].attributes,
                k <= av.len(),
                attribute_of(av, name@) == attribute_of(av.subrange(k as int, av.len() as int), name@),
            decreases av.len() - k,
        {
            let ghost rest = av.subrange(k as int, av.len() as int);
            assert(rest.drop_first() =~= av.subrange(k + 1, av.len() as int));
            if text_eq(attrs[k].0.as_str(), name) {
                let v = attrs[k].1.clone();
                assert(attrs.deep_view()[k as int] == (attrs@[k as int].0@, attrs@[k as int].1@));
                assert(v@ == av[k as int].1);
                return Some(v);
            }
            k = k + 1;
        }
        None
    }
}

} // verus!
