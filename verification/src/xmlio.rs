//! The boundary to the `xmltree` crate: serialising the library's element
//! tree to XML text and parsing XML text back. Everything the library
//! believes about these calls is stated here, over the models below.

use vstd::prelude::*;
use crate::text::s_starts_with;
use crate::xml::{SpecElement, SpecNode, XmlElement, XmlNode, s_attr_lookup};

verus! {

/// The model of a document as the XML parser sees it: attribute order is
/// not observable, so attributes form a map.
#[verifier::ext_equal]
pub ghost struct ParsedElement {
    pub name: Seq<char>,
    pub attrs: Map<Seq<char>, Seq<char>>,
    pub children: Seq<ParsedNode>,
}

#[verifier::ext_equal]
pub ghost enum ParsedNode {
    Element(ParsedElement),
    Text(Seq<char>),
}

/// The parsed model of an element tree: the attribute list becomes a
/// first-match map, children keep their order.
pub open spec fn parsed_model(e: SpecElement) -> ParsedElement
    decreases e,
{
    ParsedElement {
        name: e.name,
        attrs: Map::new(
            |k: Seq<char>| s_attr_lookup(e.attrs, k) is Some,
            |k: Seq<char>| s_attr_lookup(e.attrs, k)->0,
        ),
        children: parsed_nodes(e.children),
    }
}

pub open spec fn parsed_nodes(ns: Seq<SpecNode>) -> Seq<ParsedNode>
    decreases ns,
{
    if ns.len() == 0 {
        Seq::empty()
    } else {
        let first = match ns[0] {
            SpecNode::Element(c) => ParsedNode::Element(parsed_model(c)),
            SpecNode::Text(t) => ParsedNode::Text(t),
        };
        seq![first] + parsed_nodes(ns.drop_first())
    }
}

/// Attribute keys are distinct, at every level of the tree.
pub open spec fn attrs_distinct(e: SpecElement) -> bool
    decreases e,
{
    &&& forall|i: int, j: int|
        0 <= i < j < e.attrs.len() ==> (#[trigger] e.attrs[i]).0 != (#[trigger] e.attrs[j]).0
    &&& nodes_attrs_distinct(e.children)
}

pub open spec fn nodes_attrs_distinct(ns: Seq<SpecNode>) -> bool
    decreases ns,
{
    if ns.len() == 0 {
        true
    } else {
        &&& match ns[0] {
            SpecNode::Element(c) => attrs_distinct(c),
            SpecNode::Text(_) => true,
        }
        &&& nodes_attrs_distinct(ns.drop_first())
    }
}

/// Character data the writer and parser round-trip: every character is
/// legal in an XML 1.0 document (tab, line feed, carriage return, and the
/// non-control planes). The writer emits other characters raw and the
/// parser then rejects the document.
pub open spec fn xml_text_ok(s: Seq<char>) -> bool {
    forall|i: int|
        0 <= i < s.len() ==> (#[trigger] s[i] == '\t' || s[i] == '\n' || s[i] == '\r' || (
        '\u{20}' <= s[i] && s[i] <= '\u{d7ff}') || ('\u{e000}' <= s[i] && s[i] <= '\u{fffd}') || (
        '\u{10000}' <= s[i] && s[i] <= '\u{10ffff}'))
}

/// A valid XML element name: an ASCII letter or underscore followed by
/// ASCII letters, digits, hyphens, underscores or dots.
pub open spec fn xml_name_ok(s: Seq<char>) -> bool {
    &&& s.len() >= 1
    &&& (('a' <= s[0] && s[0] <= 'z') || ('A' <= s[0] && s[0] <= 'Z') || s[0] == '_')
    &&& forall|i: int|
        0 <= i < s.len() ==> (('a' <= #[trigger] s[i] && s[i] <= 'z') || ('A' <= s[i] && s[i]
            <= 'Z') || ('0' <= s[i] && s[i] <= '9') || s[i] == '-' || s[i] == '_' || s[i] == '.')
}

/// An attribute the writer and parser handle predictably: a plain XML name
/// other than `xmlns`, the one prefixed attribute the builder emits, or a
/// namespace declaration the re-parser accepts — the default declaration
/// must not name the reserved prefixes or namespace URIs, and a prefixed
/// declaration must not redeclare `xmlns`, may bind `xml` only to the XML
/// namespace, and cannot be empty (undefining a prefix is rejected).
pub open spec fn attr_entry_ok(k: Seq<char>, v: Seq<char>) -> bool {
    ||| (xml_name_ok(k) && k != "xmlns"@)
    ||| k == "xsi:schemaLocation"@
    ||| (k == "xmlns"@ && v != "xml"@ && v != "xmlns"@ && v
        != "http://www.w3.org/XML/1998/namespace"@ && v != "http://www.w3.org/2000/xmlns/"@)
    ||| (s_starts_with(k, "xmlns:"@) && xml_name_ok(k.skip(6)) && k.skip(6) != "xmlns"@ && (
    k.skip(6) == "xml"@ ==> v == "http://www.w3.org/XML/1998/namespace"@) && v.len() > 0)
}

/// A tree whose serialisation the parser reads back predictably: names and
/// attribute keys are well formed, attribute values and character data hold
/// only legal XML characters, no key collides with the local part of the
/// one prefixed key and that key only appears alongside its namespace
/// declaration, and each element's children are either all elements or one
/// single text node.
pub open spec fn writable(m: ParsedElement) -> bool
    decreases m,
{
    &&& xml_name_ok(m.name)
    &&& forall|k: Seq<char>|
        #[trigger] m.attrs.contains_key(k) ==> attr_entry_ok(k, m.attrs[k]) && xml_text_ok(
            m.attrs[k],
        )
    &&& !m.attrs.contains_key("schemaLocation"@)
    &&& (m.attrs.contains_key("xsi:schemaLocation"@) ==> m.attrs.contains_key("xmlns:xsi"@))
    &&& (writable_elem_children(m.children) || m.children.len() == 0 || (m.children.len() == 1
        && m.children[0] is Text && xml_text_ok(m.children[0]->Text_0)))
}

pub open spec fn writable_elem_children(ns: Seq<ParsedNode>) -> bool
    decreases ns,
{
    if ns.len() == 0 {
        true
    } else {
        &&& match ns[0] {
            ParsedNode::Element(c) => writable(c),
            ParsedNode::Text(_) => false,
        }
        &&& writable_elem_children(ns.drop_first())
    }
}

/// Sizes the re-parser's default limits accept: element and attribute
/// names under the reader's name cap, fewer attributes per element than
/// its attribute cap, and attribute values and character data short enough
/// that even fully escaped output — at most six bytes per character —
/// stays under its value and character-data caps.
pub open spec fn within_read_limits(e: SpecElement) -> bool
    decreases e,
{
    &&& e.name.len() < 0x40000
    &&& e.attrs.len() < 0x10000
    &&& forall|i: int|
        0 <= i < e.attrs.len() ==> (#[trigger] e.attrs[i]).0.len() < 0x40000 && e.attrs[i].1.len()
            < 0x8000000
    &&& nodes_within_read_limits(e.children)
}

pub open spec fn nodes_within_read_limits(ns: Seq<SpecNode>) -> bool
    decreases ns,
{
    if ns.len() == 0 {
        true
    } else {
        &&& match ns[0] {
            SpecNode::Element(c) => within_read_limits(c),
            SpecNode::Text(t) => t.len() < 0x8000000,
        }
        &&& nodes_within_read_limits(ns.drop_first())
    }
}

/// What becomes of an attribute key on a write-and-reparse round trip: the
/// one prefixed key the builder emits loses its prefix, any other key is
/// kept as it is.
pub open spec fn rt_key(k: Seq<char>) -> Seq<char> {
    if k == "xsi:schemaLocation"@ {
        "schemaLocation"@
    } else {
        k
    }
}

/// A key survives the round trip unless it declares a namespace: the
/// default declaration `xmlns` or a prefixed declaration `xmlns:` plus a
/// name. Other keys that merely open with those letters are ordinary
/// attributes and survive.
pub open spec fn rt_keeps_key(k: Seq<char>) -> bool {
    !(k == "xmlns"@ || s_starts_with(k, "xmlns:"@))
}

pub open spec fn no_tab(s: Seq<char>) -> bool {
    forall|i: int| 0 <= i < s.len() ==> #[trigger] s[i] != '\t'
}

pub open spec fn no_cr(s: Seq<char>) -> bool {
    forall|i: int| 0 <= i < s.len() ==> #[trigger] s[i] != '\r'
}

pub open spec fn all_space_text(s: Seq<char>) -> bool {
    forall|i: int| 0 <= i < s.len() ==> crate::text::is_space_char(#[trigger] s[i])
}

/// How the attributes of a written element relate to those of its re-parsed
/// form: namespace declarations disappear, the rest survive under
/// [`rt_key`], and a value survives verbatim when it holds no tab (a
/// literal tab would be normalised to a space on re-parsing).
pub open spec fn rt_attrs_related(
    m: Map<Seq<char>, Seq<char>>,
    p: Map<Seq<char>, Seq<char>>,
) -> bool {
    &&& forall|k: Seq<char>|
        m.contains_key(k) && rt_keeps_key(k) ==> p.contains_key(#[trigger] rt_key(k))
    &&& forall|k: Seq<char>|
        #[trigger] p.contains_key(k) ==> exists|k0: Seq<char>|
            m.contains_key(k0) && rt_keeps_key(k0) && #[trigger] rt_key(k0) == k
    &&& forall|k: Seq<char>|
        m.contains_key(k) && rt_keeps_key(k) && no_tab(#[trigger] m[k]) ==> p[rt_key(k)] == m[k]
}

/// How a written tree relates to its re-parsed form: same name, attributes
/// per [`rt_attrs_related`], and children preserved — whitespace-only text
/// is discarded by the parser, a single text child without carriage returns
/// survives verbatim, and element children survive in order.
pub open spec fn rt_related(m: ParsedElement, p: ParsedElement) -> bool
    decreases m,
{
    &&& p.name == m.name
    &&& rt_attrs_related(m.attrs, p.attrs)
    &&& rt_children_related(m.children, p.children)
}

pub open spec fn rt_children_related(ms: Seq<ParsedNode>, ps: Seq<ParsedNode>) -> bool
    decreases ms,
{
    if ms.len() == 0 {
        ps.len() == 0
    } else if ms.len() == 1 && ms[0] is Text {
        let t = ms[0]->Text_0;
        if all_space_text(t) {
            ps.len() == 0
        } else if no_cr(t) {
            ps =~= seq![ParsedNode::Text(t)]
        } else {
            ps.len() == 0 || (ps.len() == 1 && ps[0] is Text)
        }
    } else {
        &&& ps.len() == ms.len()
        &&& match (ms[0], ps[0]) {
            (ParsedNode::Element(a), ParsedNode::Element(b)) => rt_related(a, b),
            _ => false,
        }
        &&& rt_children_related(ms.drop_first(), ps.drop_first())
    }
}

/// The result of parsing a given XML text, as this library models it:
/// `None` where parsing fails, and otherwise the document's element tree
/// with CDATA sections as plain character data and comments and processing
/// instructions discarded.
pub uninterp spec fn parsed_document(s: Seq<char>) -> Option<ParsedElement>;

/// The contents of an `xmltree::Element` value, in this library's model.
pub uninterp spec fn xmltree_model(e: xmltree::Element) -> ParsedElement;

#[verifier::external_type_specification]
#[verifier::external_body]
pub struct ExXmltreeElement(xmltree::Element);

/// Relies on `xmltree::Element::parse` (and on `xml-rs` beneath it): parsing
/// is a function of the text alone; whitespace-only character data is
/// discarded and namespace declarations become namespace information rather
/// than attributes. The error string carries the parser's message.
#[verifier::external_body]
pub fn parse_xmltree(xml: &str) -> (r: Result<xmltree::Element, String>)
    ensures
        match r {
            Ok(e) => parsed_document(xml@) == Some(xmltree_model(e)),
            Err(_) => parsed_document(xml@) is None,
        },
{
    xmltree::Element::parse(xml.as_bytes()).map_err(|e| format!("{}", e))
}

/// Relies on the public field layout of `xmltree::Element`: name, attribute
/// map and children. CDATA sections come back as plain character data;
/// comments and processing instructions are discarded by this boundary. The
/// attribute map carries no order, so only the first-match attribute map of
/// the result is claimed.
#[verifier::external_body]
pub fn from_xmltree(e: &xmltree::Element) -> (r: XmlElement)
    ensures
        parsed_model(r@) == xmltree_model(*e),
    decreases *e,
{
    XmlElement {
        name: e.name.clone(),
        attributes: e.attributes.iter().map(|(k, v)| (k.clone(), v.clone())).collect(),
        children: e.children.iter().filter_map(|n| match n {
            xmltree::XMLNode::Element(c) => Some(XmlNode::Element(from_xmltree(c))),
            xmltree::XMLNode::Text(t) => Some(XmlNode::Text(t.clone())),
            xmltree::XMLNode::CData(t) => Some(XmlNode::Text(t.clone())),
            xmltree::XMLNode::Comment(_) => None,
            xmltree::XMLNode::ProcessingInstruction(_, _) => None,
        }).collect(),
    }
}

/// Relies on the public field layout of `xmltree::Element`: name,
/// attribute map and children, with no prefix or namespace information.
/// Duplicate attribute keys would collapse in the map, so the model is
/// only claimed for trees whose keys are distinct. This is the conversion
/// half of [`write_document`], which makes the only call.
#[verifier::external_body]
fn to_xmltree(e: &XmlElement) -> (r: xmltree::Element)
    ensures
        attrs_distinct(e@) ==> xmltree_model(r) == parsed_model(e@),
{
    xmltree::Element {
        prefix: None,
        namespace: None,
        namespaces: None,
        name: e.name.clone(),
        attributes: e.attributes.iter().map(|(k, v)| (k.clone(), v.clone())).collect(),
        children: e.children.iter().map(|n| match n {
            XmlNode::Element(c) => xmltree::XMLNode::Element(to_xmltree(c)),
            XmlNode::Text(t) => xmltree::XMLNode::Text(t.clone()),
        }).collect(),
    }
}

/// Relies on `xmltree::Element::write_with_config` with `xml-rs`'s
/// `EmitterConfig`, over a tree converted by [`to_xmltree`] so that its
/// prefix and namespace fields are fixed: writing a writable, key-distinct
/// tree within the reader's size limits to an in-memory buffer cannot
/// fail, the output opens with an XML document declaration, and re-parsing
/// the output yields a tree related to the written one by [`rt_related`]
/// (indentation introduced by pretty-printing comes back as whitespace
/// character data, which the parser discards).
#[verifier::external_body]
pub fn write_document(e: &XmlElement, pretty: bool) -> (r: Result<String, String>)
    ensures
        attrs_distinct(e@) && writable(parsed_model(e@)) ==> r is Ok,
        (attrs_distinct(e@) && writable(parsed_model(e@)) && within_read_limits(e@) && r is Ok)
            ==> match parsed_document(r->Ok_0@) {
            Some(p) => rt_related(parsed_model(e@), p),
            None => false,
        },
        r is Ok ==> s_starts_with(r->Ok_0@, "<?xml"@),
{
    let tree = to_xmltree(e);
    let config = xmltree::EmitterConfig::new()
        .perform_indent(pretty)
        .indent_string("  ")
        .write_document_declaration(true);
    let mut buf: Vec<u8> = Vec::new();
    match tree.write_with_config(&mut buf, config) {
        Ok(()) => String::from_utf8(buf).map_err(|e| format!("{}", e)),
        Err(e) => Err(format!("{}", e)),
    }
}

} // verus!
