use vstd::prelude::*;

use crate::err::{Error, ErrorKind};
use crate::text::text_eq;
use crate::time::Timestamp;
use crate::xml::{all_elements, all_tagged, NodeView, XmlDoc};

pub use crate::xoai::{ElementView, Xoai, XoaiElement, XoaiElements};

verus! {

/// A metadata vocabulary: the name that selects it in a request, and how its
/// metadata section turns into a value.
pub trait Format {
    type Metadata: View;

    /// The `metadataPrefix` request parameter.
    spec fn prefix_spec() -> Seq<char>;

    /// What the metadata section at `node` reads as; where it is malformed, the
    /// message of the failure.
    spec fn metadata_of(d: Seq<NodeView>, node: usize) -> Result<<Self::Metadata as View>::V, Seq<char>>;

    fn as_str() -> (r: String)
        ensures
            r@ == Self::prefix_spec(),
    ;

    fn parse_metadata(doc: &XmlDoc, node: usize) -> (r: Result<Self::Metadata, Error>)
        requires
            doc.wf(),
            node < doc@.len(),
        ensures
            match Self::metadata_of(doc@, node) {
                Ok(m) => r matches Ok(v) && v@ == m,
                Err(msg) => r matches Err(e) && e@ == (ErrorKind::Internal, msg),
            },
    ;
}

/// The flat vocabulary: repeatable, possibly empty fields.
pub struct OaiDc;

pub type FieldPair = (Seq<char>, Option<Seq<char>>);

pub type FieldGroups = Seq<(Seq<char>, Seq<Option<Seq<char>>>)>;

/// Fields grouped by name: one entry per name, in order of first appearance,
/// each holding that name's values in order.
#[derive(Debug, Clone)]
pub struct DcFields {
    entries: Vec<(String, Vec<Option<String>>)>,
}

impl View for DcFields {
    type V = FieldGroups;

    closed spec fn view(&self) -> FieldGroups {
        self.entries.deep_view()
    }
}

pub open spec fn keys_unique(g: FieldGroups) -> bool {
    forall|a: int, b: int| 0 <= a < b < g.len() ==> #[trigger] g[a].0 != #[trigger] g[b].0
}

/// One more field: appended to its name's entry, or a new entry at the end.
pub open spec fn add_field(g: FieldGroups, p: FieldPair) -> FieldGroups {
    if exists|j: int| 0 <= j < g.len() && #[trigger] g[j].0 == p.0 {
        let j = choose|j: int| 0 <= j < g.len() && #[trigger] g[j].0 == p.0;
        g.update(j, (p.0, g[j].1.push(p.1)))
    } else {
        g.push((p.0, seq![p.1]))
    }
}

/// The fields grouped by name.
pub open spec fn grouped(f: Seq<FieldPair>) -> FieldGroups
    decreases f.len(),
{
    if f.len() == 0 {
        seq![]
    } else {
        add_field(grouped(f.drop_last()), f.last())
    }
}

/// Name and text of each node.
pub open spec fn element_pairs(d: Seq<NodeView>, es: Seq<usize>) -> Seq<FieldPair> {
    es.map_values(|e: usize| (d[e as int].tag, d[e as int].text))
}

/// The element children of each wrapper, in order.
pub open spec fn dc_pairs(d: Seq<NodeView>, dcs: Seq<usize>) -> Seq<FieldPair>
    decreases dcs.len(),
{
    if dcs.len() == 0 {
        seq![]
    } else {
        dc_pairs(d, dcs.drop_last()) + element_pairs(
            d,
            all_elements(d, d[dcs.last() as int].children),
        )
    }
}

pub proof fn lemma_add_field_unique(g: FieldGroups, p: FieldPair)
    requires
        keys_unique(g),
    ensures
        keys_unique(add_field(g, p)),
{
}

/// Values of one field name, grouped, give a single entry holding all of them
/// in their order.
pub proof fn law_one_name_groups_all_values(name: Seq<char>, vals: Seq<Option<Seq<char>>>)
    requires
        vals.len() > 0,
    ensures
        grouped(vals.map_values(|v: Option<Seq<char>>| (name, v))) == seq![(name, vals)],
    decreases vals.len(),
{
    let f = vals.map_values(|v: Option<Seq<char>>| (name, v));
    let init = vals.drop_last();
    assert(f.drop_last() =~= init.map_values(|v: Option<Seq<char>>| (name, v)));
    if vals.len() == 1 {
        assert(init.map_values(|v: Option<Seq<char>>| (name, v)) =~= Seq::<FieldPair>::empty());
        let g = Seq::<(Seq<char>, Seq<Option<Seq<char>>>)>::empty();
        assert(!(exists|j: int| 0 <= j < g.len() && #[trigger] g[j].0 == name));
        assert(seq![vals.last()] =~= vals);
        assert(grouped(f.drop_last()) =~= g);
        assert(f.last() == (name, vals.last()));
        assert(add_field(g, f.last()) =~= g.push((name, seq![vals.last()])));
        assert(grouped(f) == add_field(grouped(f.drop_last()), f.last()));
        assert(grouped(f) =~= seq![(name, vals)]);
    } else {
        law_one_name_groups_all_values(name, init);
        let g = seq![(name, init)];
        assert(g[0].0 == name);
        let j = choose|j: int| 0 <= j < g.len() && #[trigger] g[j].0 == name;
        assert(j == 0);
        assert(init.push(vals.last()) =~= vals);
        assert(f.last() == (name, vals.last()));
        assert(grouped(f) == add_field(grouped(f.drop_last()), f.last()));
        assert(grouped(f) =~= seq![(name, vals)]);
    }
}

impl DcFields {
    pub open spec fn wf(&self) -> bool {
        keys_unique(self@)
    }

    pub fn new() -> (r: DcFields)
        ensures
            r@ == Seq::<(Seq<char>, Seq<Option<Seq<char>>>)>::empty(),
            r.wf(),
    {
        let r = DcFields { entries: Vec::new() };
        assert(r@ =~= Seq::<(Seq<char>, Seq<Option<Seq<char>>>)>::empty());
        r
    }

    /// Records one more value of the field `name`.
    pub fn add(&mut self, name: String, value: Option<String>)
        requires
            old(self).wf(),
        ensures
            final(self).wf(),
            final(self)@ == add_field(old(self)@, (name@, value.deep_view())),
    {
        let ghost g = self@;
        let ghost p = (name@, value.deep_view());
        let mut j: usize = 0;
        while j < self.entries.len()
            invariant
                g == self@,
                g == old(self)@,
                p == (name@, value.deep_view()),
                keys_unique(g),
                j <= g.len(),
                forall|a: int| 0 <= a < j ==> #[trigger] g[a].0 != name@,
            decreases g.len() - j,
        {
            if text_eq(self.entries[j].0.as_str(), name.as_str()) {
                assert(g[j as int].0 == name@);
                assert(j < g.len());
                assert(p.0 == name@);
                let ghost old_entries = self.entries@;
                let (k, mut vs) = self.entries.remove(j);
                let ghost vs0 = vs.deep_view();
                assert(g[j as int] == old_entries[j as int].deep_view());
                assert(k@ == g[j as int].0 && vs0 == g[j as int].1);
                vs.push(value);
                assert(vs.deep_view() =~= vs0.push(p.1));
                self.entries.insert(j, (k, vs));
                proof {
                    assert(0 <= j < g.len() && g[j as int].0 == p.0);
                    let c = choose|c: int| 0 <= c < g.len() && #[trigger] g[c].0 == p.0;
                    assert(g[c].0 == p.0);
                    assert(c == j) by {
                        if c < j {
                            assert(g[c].0 != g[j as int].0);
                        } else if c > j {
                            assert(g[j as int].0 != g[c].0);
                        }
                    }
                    assert(self.entries@ =~= old_entries.update(j as int, (k, vs)));
                    assert(self@ =~= g.update(j as int, (p.0, g[j as int].1.push(p.1))));
                    lemma_add_field_unique(g, p);
                    assert(add_field(g, p) == g.update(j as int, (p.0, g[j as int].1.push(p.1))));
                }
                return;
            }
            j = j + 1;
        }
        let ghost vd = value.deep_view();
        let single = vec![value];
        assert(single.deep_view() =~= seq![vd]);
        self.entries.push((name, single));
        proof {
            assert(!(exists|c: int| 0 <= c < g.len() && #[trigger] g[c].0 == p.0));
            assert(self@ =~= g.push((p.0, seq![p.1])));
            lemma_add_field_unique(g, p);
        }
    }

    /// The values of the field `name`, if it occurred.
    pub fn get(&self, name: &str) -> (r: Option<&Vec<Option<String>>>)
        requires
            self.wf(),
        ensures
            match r {
                Some(vs) => exists|j: int|
                    0 <= j < self@.len() && #[trigger] self@[j].0 == name@ && self@[j].1
                        == vs.deep_view(),
                None => forall|j: int| 0 <= j < self@.len() ==> #[trigger] self@[j].0 != name@,
            },
    {
        let mut j: usize = 0;
        while j < self.entries.len()
            invariant
                j <= self@.len(),
                forall|a: int| 0 <= a < j ==> #[trigger] self@[a].0 != name@,
            decreases self@.len() - j,
        {
            if text_eq(self.entries[j].0.as_str(), name) {
                assert(self@[j as int].0 == name@);
                assert(self@[j as int].1 == self.entries@[j as int].1.deep_view());
                return Some(&self.entries[j].1);
            }
            j = j + 1;
        }
        None
    }

    /// The groups, in order of first appearance.
    pub fn entries(&self) -> (r: &Vec<(String, Vec<Option<String>>)>)
        ensures
            r.deep_view() == self@,
    {
        &self.entries
    }
}

impl Format for OaiDc {
    type Metadata = DcFields;

    open spec fn prefix_spec() -> Seq<char> {
        seq!['o', 'a', 'i', '_', 'd', 'c']
    }

    open spec fn metadata_of(d: Seq<NodeView>, node: usize) -> Result<FieldGroups, Seq<char>> {
        Ok(grouped(dc_pairs(d, all_tagged(d, d[node as int].children, "dc"@))))
    }

    fn as_str() -> (r: String) {
        let r = "oai_dc".to_string();
        proof {
            reveal_strlit("oai_dc");
            assert(r@ =~= Self::prefix_spec());
        }
        r
    }

    fn parse_metadata(doc: &XmlDoc, node: usize) -> (r: Result<DcFields, Error>) {
        let ghost d = doc@;
        let dcs = doc.children_tagged(node, "dc");
        let mut map = DcFields::new();
        let mut a: usize = 0;
        while a < dcs.len()
            invariant
                d == doc@,
                doc.wf(),
                node < d.len(),
                dcs@ == all_tagged(d, d[node as int].children, "dc"@),
                forall|k: int| 0 <= k < dcs@.len() ==> #[trigger] dcs@[k] < d.len(),
                a <= dcs@.len(),
                map.wf(),
                map@ == grouped(dc_pairs(d, dcs@.subrange(0, a as int))),
            decreases dcs@.len() - a,
        {
            let ghost before = dc_pairs(d, dcs@.subrange(0, a as int));
            let es = doc.element_children(dcs[a]);
            let mut b: usize = 0;
            while b < es.len()
                invariant
                    d == doc@,
                    doc.wf(),
                    forall|k: int| 0 <= k < es@.len() ==> #[trigger] es@[k] < d.len(),
                    b <= es@.len(),
                    map.wf(),
                    map@ == grouped(before + element_pairs(d, es@.subrange(0, b as int))),
                decreases es@.len() - b,
            {
                let n = doc.node(es[b]);
                let name = n.tag.clone();
                let value = match &n.text {
                    Some(t) => Some(t.clone()),
                    None => None,
                };
                let ghost f = before + element_pairs(d, es@.subrange(0, b as int));
                let ghost f2 = before + element_pairs(d, es@.subrange(0, b + 1));
                assert(f2.drop_last() =~= f);
                assert(f2.last() == (name@, value.deep_view()));
                map.add(name, value);
                b = b + 1;
            }
            proof {
                let sub = dcs@.subrange(0, a + 1);
                assert(sub.drop_last() =~= dcs@.subrange(0, a as int));
                assert(es@.subrange(0, es@.len() as int) =~= es@);
            }
            a = a + 1;
        }
        assert(dcs@.subrange(0, dcs@.len() as int) =~= dcs@);
        Ok(map)
    }
}

/// A record's header: identifier, datestamp and set memberships.
#[derive(Debug, Clone)]
pub struct Header {
    pub identifier: String,
    pub datestamp: Timestamp,
    pub set_spec: Vec<String>,
}

pub struct HeaderView {
    pub identifier: Seq<char>,
    pub datestamp: Timestamp,
    pub set_spec: Seq<Seq<char>>,
}

impl View for Header {
    type V = HeaderView;

    open spec fn view(&self) -> HeaderView {
        HeaderView {
            identifier: self.identifier@,
            datestamp: self.datestamp,
            set_spec: self.set_spec.deep_view(),
        }
    }
}

/// A header paired with metadata of one vocabulary.
#[derive(Debug, Clone)]
pub struct Record<T> {
    pub header: Header,
    pub metadata: T,
}

impl<T: View> View for Record<T> {
    type V = (HeaderView, T::V);

    open spec fn view(&self) -> (HeaderView, T::V) {
        (self.header@, self.metadata@)
    }
}

} // verus!
