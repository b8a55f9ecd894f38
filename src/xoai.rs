use vstd::prelude::*;

use crate::err::{internal, Error, ErrorKind};
use crate::metadata::Format;
use crate::xml::{all_tagged, attribute_of, NodeView, XmlDoc};

verus! {

/// The nested vocabulary: named elements holding fields and further elements.
pub struct Xoai;

/// How deep elements may nest below the metadata section; deeper documents are refused.
pub const MAX_DEPTH: usize = 64;

pub type FieldView = (Option<Seq<char>>, Option<Seq<char>>);

pub struct ElementView {
    pub name: Seq<char>,
    pub fields: Option<Seq<FieldView>>,
    pub children: Option<Seq<ElementView>>,
}

/// A named element; empty field and child lists are held as `None`.
#[derive(Debug)]
pub struct XoaiElement {
    pub name: String,
    pub fields: Option<Vec<(Option<String>, Option<String>)>>,
    pub children: Option<Vec<XoaiElement>>,
}

/// The top-level elements of a metadata section.
#[derive(Debug)]
pub struct XoaiElements(pub Vec<XoaiElement>);

pub open spec fn element_view(e: XoaiElement) -> ElementView
    decreases e, 0nat,
{
    ElementView {
        name: e.name@,
        fields: e.fields.deep_view(),
        children: match e.children {
            Some(cs) => Some(elements_view(cs@, cs@.len())),
            None => None,
        },
    }
}

/// The views of the first `n` elements.
pub open spec fn elements_view(s: Seq<XoaiElement>, n: nat) -> Seq<ElementView>
    decreases s, n,
{
    if n == 0 || n > s.len() {
        seq![]
    } else {
        elements_view(s, (n - 1) as nat).push(element_view(s[n - 1]))
    }
}

impl View for XoaiElement {
    type V = ElementView;

    open spec fn view(&self) -> ElementView {
        element_view(*self)
    }
}

impl View for XoaiElements {
    type V = Seq<ElementView>;

    open spec fn view(&self) -> Seq<ElementView> {
        elements_view(self.0@, self.0@.len())
    }
}

/// The `name` attribute and text of each field node.
pub open spec fn field_views(d: Seq<NodeView>, fs: Seq<usize>) -> Seq<FieldView> {
    fs.map_values(|f: usize| (attribute_of(d[f as int].attributes, "name"@), d[f as int].text))
}

/// The message of an element nested deeper than allowed.
pub open spec fn too_deep() -> Seq<char> {
    "Elements nested too deep"@
}

/// The message of an element without a name.
pub open spec fn no_name() -> Seq<char> {
    "No name"@
}

/// The element at `e`, read with at most `depth` levels; where a name is
/// missing or the nesting is deeper, the message of the failure.
pub open spec fn element_of(d: Seq<NodeView>, e: usize, depth: nat) -> Result<ElementView, Seq<char>>
    decreases depth, 0nat,
{
    if depth == 0 || e >= d.len() {
        Err(too_deep())
    } else {
        match attribute_of(d[e as int].attributes, "name"@) {
            None => Err(no_name()),
            Some(name) => {
                let fs = field_views(d, all_tagged(d, d[e as int].children, "field"@));
                match elements_of(d, all_tagged(d, d[e as int].children, "element"@), (depth - 1) as nat) {
                    Err(m) => Err(m),
                    Ok(cs) => Ok(
                        ElementView {
                            name,
                            fields: if fs.len() == 0 {
                                None
                            } else {
                                Some(fs)
                            },
                            children: if cs.len() == 0 {
                                None
                            } else {
                                Some(cs)
                            },
                        },
                    ),
                }
            },
        }
    }
}

/// The elements at `es`, in order; the first failure where any of them fails.
pub open spec fn elements_of(d: Seq<NodeView>, es: Seq<usize>, depth: nat) -> Result<Seq<ElementView>, Seq<char>>
    decreases depth, es.len(),
{
    if es.len() == 0 {
        Ok(seq![])
    } else {
        match elements_of(d, es.drop_last(), depth) {
            Err(m) => Err(m),
            Ok(v) => match element_of(d, es.last(), depth) {
                Err(m) => Err(m),
                Ok(x) => Ok(v.push(x)),
            },
        }
    }
}

pub proof fn lemma_elements_view_push(s: Seq<XoaiElement>, x: XoaiElement, n: nat)
    requires
        n <= s.len(),
    ensures
        elements_view(s.push(x), n) == elements_view(s, n),
    decreases n,
{
    if n > 0 {
        lemma_elements_view_push(s, x, (n - 1) as nat);
        assert(s.push(x)[n - 1] == s[n - 1]);
    }
}

pub proof fn lemma_elements_prefix_err(d: Seq<NodeView>, es: Seq<usize>, k: int, depth: nat, m: Seq<char>)
    requires
        0 <= k <= es.len(),
        elements_of(d, es.subrange(0, k), depth) == Err::<Seq<ElementView>, Seq<char>>(m),
    ensures
        elements_of(d, es, depth) == Err::<Seq<ElementView>, Seq<char>>(m),
    decreases es.len() - k,
{
    if k < es.len() {
        assert(es.subrange(0, k + 1).drop_last() =~= es.subrange(0, k));
        lemma_elements_prefix_err(d, es, k + 1, depth, m);
    } else {
        assert(es.subrange(0, k) =~= es);
    }
}

/// Reads the elements at `es` with at most `depth` levels each.
fn elements_from_nodes(doc: &XmlDoc, es: &Vec<usize>, depth: usize) -> (r: Result<Vec<XoaiElement>, Error>)
    requires
        doc.wf(),
        forall|k: int| 0 <= k < es@.len() ==> #[trigger] es@[k] < doc@.len(),
    ensures
        match elements_of(doc@, es@, depth as nat) {
            Ok(v) => r matches Ok(out) && elements_view(out@, out@.len()) == v,
            Err(m) => r matches Err(e) && e@ == (ErrorKind::Internal, m),
        },
    decreases depth, 1nat,
{
    let mut out: Vec<XoaiElement> = Vec::new();
    let mut k: usize = 0;
    while k < es.len()
        invariant
            doc.wf(),
            forall|j: int| 0 <= j < es@.len() ==> #[trigger] es@[j] < doc@.len(),
            k <= es@.len(),
            out@.len() == k,
            elements_of(doc@, es@.subrange(0, k as int), depth as nat) == Ok::<Seq<ElementView>, Seq<char>>(
                elements_view(out@, out@.len()),
            ),
        decreases es@.len() - k,
    {
        let ghost sub = es@.subrange(0, k + 1);
        assert(sub.drop_last() =~= es@.subrange(0, k as int));
        assert(sub.last() == es@[k as int]);
        match element_from_node(doc, es[k], depth) {
            Ok(x) => {
                proof {
                    lemma_elements_view_push(out@, x, out@.len());
                }
                out.push(x);
            },
            Err(e) => {
                proof {
                    lemma_elements_prefix_err(doc@, es@, k + 1, depth as nat, e@.1);
                }
                return Err(e);
            },
        }
        k = k + 1;
    }
    assert(es@.subrange(0, es@.len() as int) =~= es@);
    Ok(out)
}

/// Reads the element at `e` with at most `depth` levels.
fn element_from_node(doc: &XmlDoc, e: usize, depth: usize) -> (r: Result<XoaiElement, Error>)
    requires
        doc.wf(),
        e < doc@.len(),
    ensures
        match element_of(doc@, e, depth as nat) {
            Ok(v) => r matches Ok(x) && x@ == v,
            Err(m) => r matches Err(err) && err@ == (ErrorKind::Internal, m),
        },
    decreases depth, 0nat,
{
    if depth == 0 {
        return Err(internal("Elements nested too deep"));
    }
    let name = match doc.attribute(e, "name") {
        Some(n) => n,
        None => return Err(internal("No name")),
    };
    let fs = doc.children_tagged(e, "field");
    let mut fields: Vec<(Option<String>, Option<String>)> = Vec::new();
    let mut k: usize = 0;
    while k < fs.len()
        invariant
            doc.wf(),
            forall|j: int| 0 <= j < fs@.len() ==> #[trigger] fs@[j] < doc@.len(),
            k <= fs@.len(),
            fields.deep_view() == field_views(doc@, fs@.subrange(0, k as int)),
        decreases fs@.len() - k,
    {
        let f = fs[k];
        let fname = doc.attribute(f, "name");
        let ftext = match &doc.node(f).text {
            Some(t) => Some(t.clone()),
            None => None,
        };
        let ghost fields0 = fields.deep_view();
        let ghost item = (fname.deep_view(), ftext.deep_view());
        assert(item == (attribute_of(doc@[f as int].attributes, "name"@), doc@[f as int].text));
        fields.push((fname, ftext));
        assert(fields.deep_view() =~= fields0.push(item));
        assert(field_views(doc@, fs@.subrange(0, k + 1)) =~= field_views(doc@, fs@.subrange(0, k as int)).push(item));
        k = k + 1;
    }
    assert(fs@.subrange(0, fs@.len() as int) =~= fs@);
    let cs = doc.children_tagged(e, "element");
    let children = elements_from_nodes(doc, &cs, depth - 1)?;
    let ghost fv = fields.deep_view();
    let ghost cv = elements_view(children@, children@.len());
    let x = XoaiElement {
        name,
        fields: if fields.len() == 0 {
            None
        } else {
            Some(fields)
        },
        children: if children.len() == 0 {
            None
        } else {
            Some(children)
        },
    };
    proof {
        if x.children is None {
            assert(cv =~= Seq::<ElementView>::empty());
        }
    }
    Ok(x)
}

/// The elements of each metadata section, one section after another.
pub open spec fn sections_of(d: Seq<NodeView>, ms: Seq<usize>) -> Result<Seq<ElementView>, Seq<char>>
    decreases ms.len(),
{
    if ms.len() == 0 {
        Ok(seq![])
    } else {
        match sections_of(d, ms.drop_last()) {
            Err(m) => Err(m),
            Ok(v) => match elements_of(
                d,
                all_tagged(d, d[ms.last() as int].children, "element"@),
                MAX_DEPTH as nat,
            ) {
                Err(m) => Err(m),
                Ok(w) => Ok(v + w),
            },
        }
    }
}

pub proof fn lemma_sections_prefix_err(d: Seq<NodeView>, ms: Seq<usize>, k: int, m: Seq<char>)
    requires
        0 <= k <= ms.len(),
        sections_of(d, ms.subrange(0, k)) == Err::<Seq<ElementView>, Seq<char>>(m),
    ensures
        sections_of(d, ms) == Err::<Seq<ElementView>, Seq<char>>(m),
    decreases ms.len() - k,
{
    if k < ms.len() {
        assert(ms.subrange(0, k + 1).drop_last() =~= ms.subrange(0, k));
        lemma_sections_prefix_err(d, ms, k + 1, m);
    } else {
        assert(ms.subrange(0, k) =~= ms);
    }
}

pub proof fn lemma_elements_view_append(a: Seq<XoaiElement>, b: Seq<XoaiElement>)
    ensures
        elements_view(a + b, (a + b).len()) == elements_view(a, a.len()) + elements_view(b, b.len()),
    decreases b.len(),
{
    if b.len() == 0 {
        assert(a + b =~= a);
        assert(elements_view(b, b.len()) =~= Seq::<ElementView>::empty());
        assert(elements_view(a, a.len()) + elements_view(b, b.len()) =~= elements_view(a, a.len()));
    } else {
        let b0 = b.drop_last();
        let x = b.last();
        lemma_elements_view_append(a, b0);
        assert(a + b =~= (a + b0).push(x));
        assert(b =~= b0.push(x));
        lemma_elements_view_push(a + b0, x, (a + b0).len());
        lemma_elements_view_push(b0, x, b0.len());
        assert(elements_view(a + b, (a + b).len()) =~= elements_view(a, a.len()) + elements_view(b, b.len()));
    }
}

impl Format for Xoai {
    type Metadata = XoaiElements;

    open spec fn prefix_spec() -> Seq<char> {
        seq!['x', 'o', 'a', 'i']
    }

    open spec fn metadata_of(d: Seq<NodeView>, node: usize) -> Result<Seq<ElementView>, Seq<char>> {
        sections_of(d, all_tagged(d, d[node as int].children, "metadata"@))
    }

    fn as_str() -> (r: String) {
        let r = "xoai".to_string();
        proof {
            reveal_strlit("xoai");
            assert(r@ =~= Self::prefix_spec());
        }
        r
    }

    fn parse_metadata(doc: &XmlDoc, node: usize) -> (r: Result<XoaiElements, Error>) {
        let ms = doc.children_tagged(node, "metadata");
        let mut out: Vec<XoaiElement> = Vec::new();
        let mut a: usize = 0;
        while a < ms.len()
            invariant
                doc.wf(),
                node < doc@.len(),
                ms@ == all_tagged(doc@, doc@[node as int].children, "metadata"@),
                forall|j: int| 0 <= j < ms@.len() ==> #[trigger] ms@[j] < doc@.len(),
                a <= ms@.len(),
                sections_of(doc@, ms@.subrange(0, a as int)) == Ok::<Seq<ElementView>, Seq<char>>(
                    elements_view(out@, out@.len()),
                ),
            decreases ms@.len() - a,
        {
            let ghost sub = ms@.subrange(0, a + 1);
            assert(sub.drop_last() =~= ms@.subrange(0, a as int));
            let es = doc.children_tagged(ms[a], "element");
            match elements_from_nodes(doc, &es, MAX_DEPTH) {
                Ok(v) => {
                    let mut v = v;
                    proof {
                        lemma_elements_view_append(out@, v@);
                    }
                    out.append(&mut v);
                },
                Err(e) => {
                    proof {
                        lemma_sections_prefix_err(doc@, ms@, a + 1, e@.1);
                    }
                    return Err(e);
                },
            }
            a = a + 1;
        }
        assert(ms@.subrange(0, ms@.len() as int) =~= ms@);
        Ok(XoaiElements(out))
    }
}

} // verus!
