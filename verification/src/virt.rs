//! Evaluated (virtual) tree shape: the concrete nodes an evaluation pass
//! produces, each carrying the stable identifier a downstream reconciler
//! keys on.

use vstd::prelude::*;
use crate::base::Location;
use crate::css_virt::{CSSRuleV, CSSSheet};

verus! {

/// One evaluated attribute.
#[derive(Debug)]
pub struct Attribute {
    pub id: String,
    pub name: String,
    pub value: Option<String>,
}

/// A run of evaluated text.
#[derive(Debug)]
pub struct Text {
    pub id: String,
    pub value: String,
}

/// An evaluated element, remembering which document and source range it
/// came from.
#[derive(Debug)]
pub struct Element {
    pub id: String,
    pub source_uri: String,
    pub source_location: Location,
    pub tag_name: String,
    pub attributes: Vec<Attribute>,
    pub children: Vec<Node>,
}

/// Evaluated siblings with no element of their own.
#[derive(Debug)]
pub struct Fragment {
    pub children: Vec<Node>,
}

/// The aggregated style sheet of a document, injected as the first child
/// of its evaluated root.
#[derive(Debug)]
pub struct StyleElement {
    pub id: String,
    pub sheet: CSSSheet,
}

/// One evaluated node.
#[derive(Debug)]
pub enum Node {
    Element(Element),
    Text(Text),
    Fragment(Fragment),
    StyleElement(StyleElement),
    Comment,
}

/// Mathematical image of an attribute.
pub struct AttrV {
    pub id: Seq<char>,
    pub name: Seq<char>,
    pub value: Option<Seq<char>>,
}

/// Mathematical image of a node.
pub enum NodeV {
    Element {
        id: Seq<char>,
        source_uri: Seq<char>,
        source_location: Location,
        tag_name: Seq<char>,
        attributes: Seq<AttrV>,
        children: Seq<NodeV>,
    },
    Text { id: Seq<char>, value: Seq<char> },
    Fragment { children: Seq<NodeV> },
    StyleElement { id: Seq<char>, sheet: Seq<CSSRuleV> },
    Comment,
}

pub open spec fn attr_view(a: Attribute) -> AttrV {
    AttrV {
        id: a.id@,
        name: a.name@,
        value: match a.value {
            Some(v) => Some(v@),
            None => None,
        },
    }
}

pub open spec fn attrs_view(attrs: Seq<Attribute>) -> Seq<AttrV> {
    Seq::new(attrs.len(), |i: int| attr_view(attrs[i]))
}

pub open spec fn node_view(n: Node) -> NodeV
    decreases n,
{
    match n {
        Node::Element(el) => NodeV::Element {
            id: el.id@,
            source_uri: el.source_uri@,
            source_location: el.source_location,
            tag_name: el.tag_name@,
            attributes: attrs_view(el.attributes@),
            children: nodes_view(el.children@),
        },
        Node::Text(t) => NodeV::Text { id: t.id@, value: t.value@ },
        Node::Fragment(f) => NodeV::Fragment { children: nodes_view(f.children@) },
        Node::StyleElement(s) => NodeV::StyleElement { id: s.id@, sheet: s.sheet@ },
        Node::Comment => NodeV::Comment,
    }
}

pub open spec fn nodes_view(cs: Seq<Node>) -> Seq<NodeV>
    decreases cs,
{
    if cs.len() == 0 {
        Seq::empty()
    } else {
        seq![node_view(cs[0])] + nodes_view(cs.drop_first())
    }
}

/// `nodes_view` maps `node_view` over the sequence, element by element.
pub broadcast proof fn lemma_nodes_view(cs: Seq<Node>)
    ensures
        (#[trigger] nodes_view(cs)).len() == cs.len(),
        forall|i: int| 0 <= i < cs.len() ==> nodes_view(cs)[i] == node_view(cs[i]),
    decreases cs.len(),
{
    if cs.len() > 0 {
        lemma_nodes_view(cs.drop_first());
    }
}

impl View for Node {
    type V = NodeV;

    open spec fn view(&self) -> NodeV {
        node_view(*self)
    }
}

impl View for Attribute {
    type V = AttrV;

    open spec fn view(&self) -> AttrV {
        attr_view(*self)
    }
}

/// The view of an optional node.
pub open spec fn opt_node_view(o: Option<Node>) -> Option<NodeV> {
    match o {
        Some(n) => Some(node_view(n)),
        None => None,
    }
}

/// Injecting the aggregated style: a node that can carry children takes
/// it as its first child; any other node is wrapped in a fragment that
/// puts the style first.
pub open spec fn prepend_spec(root: NodeV, child: NodeV) -> NodeV {
    match root {
        NodeV::Element { id, source_uri, source_location, tag_name, attributes, children } =>
            NodeV::Element {
                id,
                source_uri,
                source_location,
                tag_name,
                attributes,
                children: seq![child] + children,
            },
        NodeV::Fragment { children } => NodeV::Fragment { children: seq![child] + children },
        _ => NodeV::Fragment { children: seq![child, root] },
    }
}

impl Attribute {
    /// A copy whose view is the same.
    pub fn duplicate(&self) -> (r: Attribute)
        ensures
            r@ == self@,
    {
        Attribute {
            id: self.id.clone(),
            name: self.name.clone(),
            value: match &self.value {
                Some(v) => Some(v.clone()),
                None => None,
            },
        }
    }
}

/// Copies of a list of nodes, views preserved element by element.
pub fn duplicate_nodes(v: &Vec<Node>) -> (r: Vec<Node>)
    ensures
        nodes_view(r@) == nodes_view(v@),
    decreases v,
{
    let mut out: Vec<Node> = Vec::new();
    let mut i: usize = 0;
    while i < v.len()
        invariant
            0 <= i <= v@.len(),
            out@.len() == i,
            forall|j: int| 0 <= j < i ==> node_view(out@[j]) == node_view(v@[j]),
        decreases v@.len() - i,
    {
        let c = v[i].duplicate();
        out.push(c);
        i += 1;
    }
    proof {
        lemma_nodes_view(out@);
        lemma_nodes_view(v@);
        assert(nodes_view(out@) =~= nodes_view(v@));
    }
    out
}

impl Node {
    /// A copy whose view is the same.
    pub fn duplicate(&self) -> (r: Node)
        ensures
            r@ == self@,
        decreases self,
    {
        match self {
            Node::Element(el) => {
                let mut attributes: Vec<Attribute> = Vec::new();
                let mut i: usize = 0;
                while i < el.attributes.len()
                    invariant
                        0 <= i <= el.attributes@.len(),
                        attributes@.len() == i,
                        forall|j: int| 0 <= j < i ==> attributes@[j]@ == el.attributes@[j]@,
                    decreases el.attributes@.len() - i,
                {
                    attributes.push(el.attributes[i].duplicate());
                    i += 1;
                }
                let children = duplicate_nodes(&el.children);
                let r = Node::Element(
                    Element {
                        id: el.id.clone(),
                        source_uri: el.source_uri.clone(),
                        source_location: el.source_location,
                        tag_name: el.tag_name.clone(),
                        attributes,
                        children,
                    },
                );
                proof {
                    assert(r@->Element_attributes =~= attrs_view(el.attributes@));
                }
                r
            },
            Node::Text(t) => Node::Text(Text { id: t.id.clone(), value: t.value.clone() }),
            Node::Fragment(f) => Node::Fragment(Fragment { children: duplicate_nodes(&f.children) }),
            Node::StyleElement(s) => Node::StyleElement(
                StyleElement { id: s.id.clone(), sheet: s.sheet.duplicate() },
            ),
            Node::Comment => Node::Comment,
        }
    }

    /// Put `child` first under this node, wrapping nodes that cannot carry
    /// children in a fragment.
    pub fn prepend_child(&mut self, child: Node)
        ensures
            final(self)@ == prepend_spec(old(self)@, child@),
    {
        match self {
            Node::Element(el) => {
                let ghost pre = el.children@;
                el.children.insert(0, child);
                proof {
                    assert(el.children@ =~= seq![child] + pre);
                    lemma_nodes_view(el.children@);
                    lemma_nodes_view(pre);
                    assert(nodes_view(el.children@) =~= seq![node_view(child)] + nodes_view(pre));
                }
            },
            Node::Fragment(f) => {
                let ghost pre = f.children@;
                f.children.insert(0, child);
                proof {
                    assert(f.children@ =~= seq![child] + pre);
                    lemma_nodes_view(f.children@);
                    lemma_nodes_view(pre);
                    assert(nodes_view(f.children@) =~= seq![node_view(child)] + nodes_view(pre));
                }
            },
            _ => {
                let mut tmp = Node::Comment;
                core::mem::swap(self, &mut tmp);
                let children = vec![child, tmp];
                proof {
                    lemma_nodes_view(children@);
                    assert(nodes_view(children@) =~= seq![node_view(child), node_view(tmp)]);
                }
                *self = Node::Fragment(Fragment { children });
            },
        }
    }
}

} // verus!
