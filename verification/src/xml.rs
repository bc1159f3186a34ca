//! The XML element tree that the builder produces and the validator checks:
//! an element name, an ordered attribute list and a list of child nodes.

use vstd::prelude::*;

verus! {

/// An XML element.
pub struct XmlElement {
    pub name: String,
    pub attributes: Vec<(String, String)>,
    pub children: Vec<XmlNode>,
}

/// A node of the tree: a child element or character data.
pub enum XmlNode {
    Element(XmlElement),
    Text(String),
}

/// The mathematical shape of an element.
#[verifier::ext_equal]
pub ghost struct SpecElement {
    pub name: Seq<char>,
    pub attrs: Seq<(Seq<char>, Seq<char>)>,
    pub children: Seq<SpecNode>,
}

#[verifier::ext_equal]
pub ghost enum SpecNode {
    Element(SpecElement),
    Text(Seq<char>),
}

pub open spec fn node_view(n: XmlNode) -> SpecNode
    decreases n,
{
    match n {
        XmlNode::Element(e) => SpecNode::Element(elem_view(e)),
        XmlNode::Text(t) => SpecNode::Text(t@),
    }
}

pub open spec fn nodes_view(ns: Seq<XmlNode>) -> Seq<SpecNode>
    decreases ns,
{
    if ns.len() == 0 {
        Seq::empty()
    } else {
        seq![node_view(ns[0])] + nodes_view(ns.drop_first())
    }
}

pub open spec fn elem_view(e: XmlElement) -> SpecElement
    decreases e,
{
    SpecElement {
        name: e.name@,
        attrs: Seq::new(e.attributes@.len(), |i: int| (e.attributes@[i].0@, e.attributes@[i].1@)),
        children: nodes_view(e.children@),
    }
}

/// `nodes_view` maps `node_view` over the sequence.
pub broadcast proof fn lemma_nodes_view(ns: Seq<XmlNode>)
    ensures
        (#[trigger] nodes_view(ns)).len() == ns.len(),
        forall|i: int| 0 <= i < ns.len() ==> nodes_view(ns)[i] == node_view(ns[i]),
    decreases ns,
{
    if ns.len() > 0 {
        lemma_nodes_view(ns.drop_first());
    }
}

impl View for XmlElement {
    type V = SpecElement;

    open spec fn view(&self) -> SpecElement {
        elem_view(*self)
    }
}

impl View for XmlNode {
    type V = SpecNode;

    open spec fn view(&self) -> SpecNode {
        node_view(*self)
    }
}

/// First-match lookup in an attribute list.
pub open spec fn s_attr_lookup(attrs: Seq<(Seq<char>, Seq<char>)>, k: Seq<char>) -> Option<
    Seq<char>,
>
    decreases attrs.len(),
{
    if attrs.len() == 0 {
        None
    } else if attrs[0].0 == k {
        Some(attrs[0].1)
    } else {
        s_attr_lookup(attrs.drop_first(), k)
    }
}

/// The element children of a node list, in order.
pub open spec fn s_elem_children(ns: Seq<SpecNode>) -> Seq<SpecElement>
    decreases ns.len(),
{
    if ns.len() == 0 {
        Seq::empty()
    } else {
        match ns[0] {
            SpecNode::Element(e) => seq![e] + s_elem_children(ns.drop_first()),
            SpecNode::Text(_) => s_elem_children(ns.drop_first()),
        }
    }
}

/// The first element child with the given name.
pub open spec fn s_child_named(ns: Seq<SpecNode>, name: Seq<char>) -> Option<SpecElement>
    decreases ns.len(),
{
    if ns.len() == 0 {
        None
    } else {
        match ns[0] {
            SpecNode::Element(e) => if e.name == name {
                Some(e)
            } else {
                s_child_named(ns.drop_first(), name)
            },
            SpecNode::Text(_) => s_child_named(ns.drop_first(), name),
        }
    }
}

/// The concatenation of the text children of a node list.
pub open spec fn s_text_concat(ns: Seq<SpecNode>) -> Seq<char>
    decreases ns.len(),
{
    if ns.len() == 0 {
        Seq::empty()
    } else {
        match ns[0] {
            SpecNode::Element(_) => s_text_concat(ns.drop_first()),
            SpecNode::Text(t) => t + s_text_concat(ns.drop_first()),
        }
    }
}

impl XmlElement {
    /// An element with the given name and no attributes or children.
    pub fn new(name: &str) -> (r: XmlElement)
        ensures
            r@ == (SpecElement { name: name@, attrs: Seq::empty(), children: Seq::empty() }),
    {
        let r = XmlElement { name: name.to_owned(), attributes: Vec::new(), children: Vec::new() };
        proof {
            assert(r@ =~= SpecElement { name: name@, attrs: Seq::empty(), children: Seq::empty() });
        }
        r
    }

    /// Appends an attribute.
    pub fn add_attribute(&mut self, k: &str, v: &str)
        ensures
            final(self)@ == (SpecElement {
                attrs: old(self)@.attrs.push((k@, v@)),
                ..old(self)@
            }),
    {
        self.attributes.push((k.to_owned(), v.to_owned()));
        proof {
            assert(final(self)@ =~= SpecElement {
                attrs: old(self)@.attrs.push((k@, v@)),
                ..old(self)@
            });
        }
    }

    /// Appends a child element.
    pub fn add_child(&mut self, child: XmlElement)
        ensures
            final(self)@ == (SpecElement {
                children: old(self)@.children.push(SpecNode::Element(child@)),
                ..old(self)@
            }),
    {
        let ghost old_children = self.children@;
        self.children.push(XmlNode::Element(child));
        proof {
            lemma_nodes_view_push(old_children, XmlNode::Element(child));
            assert(final(self)@ =~= SpecElement {
                children: old(self)@.children.push(SpecNode::Element(child@)),
                ..old(self)@
            });
        }
    }

    /// Appends a text node.
    pub fn add_text(&mut self, text: &str)
        ensures
            final(self)@ == (SpecElement {
                children: old(self)@.children.push(SpecNode::Text(text@)),
                ..old(self)@
            }),
    {
        let ghost old_children = self.children@;
        let node = XmlNode::Text(text.to_owned());
        let ghost node_ghost = node;
        self.children.push(node);
        proof {
            lemma_nodes_view_push(old_children, node_ghost);
            assert(final(self)@ =~= SpecElement {
                children: old(self)@.children.push(SpecNode::Text(text@)),
                ..old(self)@
            });
        }
    }

    /// The first child element with the given name.
    pub fn get_child(&self, name: &str) -> (r: Option<&XmlElement>)
        ensures
            match r {
                Some(c) => s_child_named(self@.children, name@) == Some(c@),
                None => s_child_named(self@.children, name@) is None,
            },
    {
        proof {
            lemma_nodes_view(self.children@);
            assert(self@.children.skip(0) =~= self@.children);
        }
        let name_owned = name.to_owned();
        let n = self.children.len();
        let mut i: usize = 0;
        while i < n
            invariant
                name_owned@ == name@,
                n == self.children@.len(),
                0 <= i <= n,
                self@.children.len() == n,
                forall|j: int| 0 <= j < n ==> self@.children[j] == node_view(self.children@[j]),
                s_child_named(self@.children, name@) == s_child_named(
                    self@.children.skip(i as int),
                    name@,
                ),
            decreases n - i,
        {
            proof {
                assert(self@.children.skip(i as int).drop_first() =~= self@.children.skip(
                    i + 1,
                ));
                assert(self@.children.skip(i as int)[0] == self@.children[i as int]);
            }
            match &self.children[i] {
                XmlNode::Element(c) => {
                    if c.name == name_owned {
                        return Some(c);
                    }
                },
                XmlNode::Text(_) => {},
            }
            i = i + 1;
        }
        proof {
            assert(self@.children.skip(n as int) =~= Seq::<SpecNode>::empty());
        }
        None
    }

    /// First-match lookup of an attribute value.
    pub fn get_attribute(&self, k: &str) -> (r: Option<&String>)
        ensures
            match r {
                Some(v) => s_attr_lookup(self@.attrs, k@) == Some(v@),
                None => s_attr_lookup(self@.attrs, k@) is None,
            },
    {
        proof {
            assert(self@.attrs.skip(0) =~= self@.attrs);
        }
        let k_owned = k.to_owned();
        let n = self.attributes.len();
        let mut i: usize = 0;
        while i < n
            invariant
                k_owned@ == k@,
                n == self.attributes@.len(),
                0 <= i <= n,
                self@.attrs.len() == n,
                forall|j: int|
                    0 <= j < n ==> #[trigger] self@.attrs[j] == (self.attributes@[j].0@,
                    self.attributes@[j].1@),
                s_attr_lookup(self@.attrs, k@) == s_attr_lookup(self@.attrs.skip(i as int), k@),
            decreases n - i,
        {
            proof {
                assert(self@.attrs.skip(i as int).drop_first() =~= self@.attrs.skip(i + 1));
                assert(self@.attrs.skip(i as int)[0] == self@.attrs[i as int]);
            }
            if self.attributes[i].0 == k_owned {
                return Some(&self.attributes[i].1);
            }
            i = i + 1;
        }
        proof {
            assert(self@.attrs.skip(n as int) =~= Seq::<(Seq<char>, Seq<char>)>::empty());
        }
        None
    }

    /// The concatenated text of the element's text children.
    pub fn get_text(&self) -> (r: String)
        ensures
            r@ == s_text_concat(self@.children),
    {
        proof {
            lemma_nodes_view(self.children@);
            assert(self@.children.skip(0) =~= self@.children);
        }
        let n = self.children.len();
        let mut i: usize = 0;
        let mut out = String::new();
        while i < n
            invariant
                n == self.children@.len(),
                0 <= i <= n,
                self@.children.len() == n,
                forall|j: int| 0 <= j < n ==> self@.children[j] == node_view(self.children@[j]),
                s_text_concat(self@.children) == out@ + s_text_concat(
                    self@.children.skip(i as int),
                ),
            decreases n - i,
        {
            proof {
                assert(self@.children.skip(i as int).drop_first() =~= self@.children.skip(
                    i + 1,
                ));
                assert(self@.children.skip(i as int)[0] == self@.children[i as int]);
            }
            match &self.children[i] {
                XmlNode::Element(_) => {},
                XmlNode::Text(t) => {
                    out.append(t.as_str());
                },
            }
            i = i + 1;
        }
        proof {
            assert(self@.children.skip(n as int) =~= Seq::<SpecNode>::empty());
            assert(out@ =~= out@ + s_text_concat(self@.children.skip(n as int)));
        }
        out
    }
}

/// Pushing a node onto a child list extends its view by the node's view.
pub proof fn lemma_nodes_view_push(ns: Seq<XmlNode>, n: XmlNode)
    ensures
        nodes_view(ns.push(n)) =~= nodes_view(ns).push(node_view(n)),
{
    lemma_nodes_view(ns.push(n));
    lemma_nodes_view(ns);
    assert forall|i: int| 0 <= i < ns.len() + 1 implies nodes_view(ns.push(n))[i] == nodes_view(
        ns,
    ).push(node_view(n))[i] by {
        if i < ns.len() {
            assert(ns.push(n)[i] == ns[i]);
        } else {
            assert(ns.push(n)[i] == n);
        }
    }
}

} // verus!
