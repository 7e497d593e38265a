use vstd::prelude::*;

use crate::text::{chars_of, string_of, trim, trimmed};

verus! {

/// One node of a parsed XML document. Nodes are listed in document order;
/// `children` and `subtree_end` are positions in that list.
pub struct XmlNode {
    /// The local tag name; empty for a node that is not an element.
    pub name: String,
    pub is_element: bool,
    pub is_text: bool,
    /// For an element, the text of its first child when that child is text;
    /// for a text or comment node, its own text.
    pub text: Option<String>,
    /// The attributes as (local name, value), in document order.
    pub attributes: Vec<(String, String)>,
    pub children: Vec<usize>,
    /// The node and its descendants are the positions from this node's own
    /// up to `subtree_end` (excluded).
    pub subtree_end: usize,
}

/// The plain values of an `XmlNode`.
pub ghost struct XmlNodeView {
    pub name: Seq<char>,
    pub is_element: bool,
    pub is_text: bool,
    pub text: Option<Seq<char>>,
    pub attributes: Seq<(Seq<char>, Seq<char>)>,
    pub children: Seq<usize>,
    pub subtree_end: usize,
}

impl View for XmlNode {
    type V = XmlNodeView;

    open spec fn view(&self) -> XmlNodeView {
        XmlNodeView {
            name: self.name@,
            is_element: self.is_element,
            is_text: self.is_text,
            text: match self.text {
                Some(t) => Some(t@),
                None => None,
            },
            attributes: self.attributes@.map_values(|a: (String, String)| (a.0@, a.1@)),
            children: self.children@,
            subtree_end: self.subtree_end,
        }
    }
}

/// The views of a list of nodes.
pub open spec fn node_views(nodes: Seq<XmlNode>) -> Seq<XmlNodeView> {
    nodes.map_values(|n: XmlNode| n@)
}

/// The nodes of the XML document `xml` in document order, or `None` where
/// `xml` is not a well-formed document.
pub uninterp spec fn xml_tree(xml: Seq<char>) -> Option<Seq<XmlNodeView>>;

/// Relies on roxmltree's `Document::parse`, and on `descendants` of the
/// document listing every node in document order with `NodeId::get_usize`
/// giving its position in that list.
#[verifier::external_body]
fn parse_document(xml: &str) -> (r: Option<Vec<XmlNode>>)
    ensures
        r is Some <==> xml_tree(xml@) is Some,
        r matches Some(nodes) ==> node_views(nodes@) == xml_tree(xml@)->Some_0,
{
    let doc = roxmltree::Document::parse(xml).ok()?;
    Some(doc.descendants().map(|n| XmlNode {
        name: n.tag_name().name().to_owned(),
        is_element: n.is_element(),
        is_text: n.is_text(),
        text: n.text().map(|t| t.to_owned()),
        attributes: n.attributes().map(|a| (a.name().to_owned(), a.value().to_owned())).collect(),
        children: n.children().map(|c| c.id().get_usize()).collect(),
        subtree_end: n.id().get_usize() + n.descendants().count(),
    }).collect())
}

/// Every node's children and descendants come after it and within the list,
/// and the list has a first node, the document's root.
pub open spec fn doc_wf(doc: Seq<XmlNodeView>) -> bool {
    &&& doc.len() > 0
    &&& forall|i: int| 0 <= i < doc.len() ==> i < (#[trigger] doc[i]).subtree_end <= doc.len()
    &&& forall|i: int, k: int|
        0 <= i < doc.len() && 0 <= k < doc[i].children.len() ==> i < #[trigger] doc[i].children[k]
            < doc.len()
}

/// The document's nodes, checked to be laid out as `doc_wf` says.
pub fn parse_nodes(xml: &str) -> (r: Option<Vec<XmlNode>>)
    ensures
        r is Some <==> (xml_tree(xml@) is Some && doc_wf(xml_tree(xml@)->Some_0)),
        r matches Some(nodes) ==> node_views(nodes@) == xml_tree(xml@)->Some_0,
{
    let nodes = parse_document(xml)?;
    if nodes_wf(&nodes) {
        Some(nodes)
    } else {
        None
    }
}

fn nodes_wf(nodes: &Vec<XmlNode>) -> (r: bool)
    ensures
        r == doc_wf(node_views(nodes@)),
{
    let n = nodes.len();
    if n == 0 {
        return false;
    }
    let ghost doc = node_views(nodes@);
    let mut i: usize = 0;
    while i < n
        invariant
            n == nodes@.len(),
            doc == node_views(nodes@),
            i <= n,
            forall|j: int| 0 <= j < i ==> j < (#[trigger] doc[j]).subtree_end <= n,
            forall|j: int, k: int|
                0 <= j < i && 0 <= k < doc[j].children.len() ==> j < #[trigger] doc[j].children[k]
                    < n,
        decreases n - i,
    {
        let node = &nodes[i];
        assert(doc[i as int] == node@);
        if !(i < node.subtree_end && node.subtree_end <= n) {
            assert(!(i < doc[i as int].subtree_end <= n));
            return false;
        }
        let mut k: usize = 0;
        while k < node.children.len()
            invariant
                n == nodes@.len(),
                doc == node_views(nodes@),
                i < n,
                *node == nodes@[i as int],
                k <= node.children@.len(),
                forall|m: int| 0 <= m < k ==> i < #[trigger] doc[i as int].children[m] < n,
            decreases node.children@.len() - k,
        {
            let c = node.children[k];
            if !(i < c && c < n) {
                assert(doc[i as int].children[k as int] == c);
                return false;
            }
            k = k + 1;
        }
        i = i + 1;
    }
    true
}

/// The value of the first attribute named `name` among `attrs`.
pub open spec fn attr_value(attrs: Seq<(Seq<char>, Seq<char>)>, name: Seq<char>) -> Option<Seq<char>>
    decreases attrs.len(),
{
    if attrs.len() == 0 {
        None
    } else if attrs[0].0 == name {
        Some(attrs[0].1)
    } else {
        attr_value(attrs.drop_first(), name)
    }
}

/// The value of the first attribute of `node` named `name`.
pub fn attribute<'a>(node: &'a XmlNode, name: &String) -> (r: Option<&'a String>)
    ensures
        r matches Some(v) ==> attr_value(node@.attributes, name@) == Some(v@),
        r is None ==> attr_value(node@.attributes, name@) is None,
{
    let mut i: usize = 0;
    assert(node@.attributes.skip(0) =~= node@.attributes);
    while i < node.attributes.len()
        invariant
            i <= node.attributes@.len(),
            attr_value(node@.attributes, name@) == attr_value(
                node@.attributes.skip(i as int),
                name@,
            ),
        decreases node.attributes@.len() - i,
    {
        assert(node@.attributes.skip(i as int).drop_first() =~= node@.attributes.skip(i + 1));
        if node.attributes[i].0 == *name {
            return Some(&node.attributes[i].1);
        }
        i = i + 1;
    }
    None
}

/// The trimmed text of every text node among positions `from` up to `to`
/// (excluded), joined in order.
pub open spec fn texts_between(doc: Seq<XmlNodeView>, from: int, to: int) -> Seq<char>
    decreases to - from,
{
    if to <= from {
        Seq::empty()
    } else {
        let before = texts_between(doc, from, to - 1);
        let node = doc[to - 1];
        if node.is_text {
            before + trimmed(
                match node.text {
                    Some(t) => t,
                    None => Seq::empty(),
                },
            )
        } else {
            before
        }
    }
}

/// The trimmed texts of the text nodes of node `i` and its descendants,
/// joined in document order.
pub open spec fn all_text_of(doc: Seq<XmlNodeView>, i: int) -> Seq<char> {
    texts_between(doc, i, doc[i].subtree_end as int)
}

/// The trimmed texts of the text nodes among `node` and its descendants,
/// joined in document order.
pub fn all_text(nodes: &Vec<XmlNode>, node: usize) -> (r: String)
    requires
        doc_wf(node_views(nodes@)),
        node < nodes@.len(),
    ensures
        r@ == all_text_of(node_views(nodes@), node as int),
{
    let ghost doc = node_views(nodes@);
    let end = nodes[node].subtree_end;
    assert(doc[node as int].subtree_end == end);
    let mut out: Vec<char> = Vec::new();
    let mut j: usize = node;
    while j < end
        invariant
            doc == node_views(nodes@),
            doc_wf(doc),
            node <= j <= end,
            end <= nodes@.len(),
            out@ == texts_between(doc, node as int, j as int),
        decreases end - j,
    {
        let x = &nodes[j];
        assert(doc[j as int] == x@);
        if x.is_text {
            match &x.text {
                Some(t) => {
                    let mut piece = chars_of(trim(t.as_str()));
                    out.append(&mut piece);
                },
                None => {
                    assert(trimmed(Seq::<char>::empty()) =~= Seq::<char>::empty());
                    assert(out@ =~= out@ + Seq::<char>::empty());
                },
            }
        }
        j = j + 1;
    }
    string_of(&out)
}

} // verus!
