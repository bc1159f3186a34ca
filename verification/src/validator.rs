//! The validator: structural conformance of an XML tree against the QTI
//! schema table, and the separate semantic completeness check.

use vstd::prelude::*;
use crate::error::QtiError;
use crate::schema::{QtiSchema, s_doc_valid, spec_qti_schema};
use crate::text::spec_trim;
use crate::text::trim_str;
use crate::xml::{
    SpecElement, SpecNode, XmlElement, XmlNode, node_view, lemma_nodes_view, s_attr_lookup,
    s_child_named, s_text_concat,
};
use crate::xmlio::{parse_xmltree, from_xmltree, parsed_document, parsed_model};

verus! {

/// Validates QTI XML against the schema table.
pub struct Validator {
    pub schema: QtiSchema,
}

/// The element children of a node list carrying the name `item`.
pub open spec fn s_items_of(ns: Seq<SpecNode>) -> Seq<SpecElement>
    decreases ns.len(),
{
    if ns.len() == 0 {
        Seq::empty()
    } else {
        let rest = s_items_of(ns.drop_first());
        match ns[0] {
            SpecNode::Element(e) => if e.name == "item"@ {
                seq![e] + rest
            } else {
                rest
            },
            SpecNode::Text(_) => rest,
        }
    }
}

/// Semantic completeness of one item: an `ident` attribute, a
/// `presentation` with non-empty question text, a `resprocessing`, and at
/// least one recognized response element.
pub open spec fn s_item_complete(item: SpecElement) -> bool {
    &&& s_attr_lookup(item.attrs, "ident"@) is Some
    &&& match s_child_named(item.children, "presentation"@) {
        Some(presentation) => {
            &&& match s_child_named(presentation.children, "material"@) {
                Some(material) => match s_child_named(material.children, "mattext"@) {
                    Some(mattext) => spec_trim(s_text_concat(mattext.children)).len() > 0,
                    None => false,
                },
                None => false,
            }
            &&& (s_child_named(presentation.children, "response_lid"@) is Some || s_child_named(
                presentation.children,
                "response_str"@,
            ) is Some || s_child_named(presentation.children, "response_num"@) is Some
                || s_child_named(presentation.children, "response_grp"@) is Some)
        },
        None => false,
    }
    &&& s_child_named(item.children, "resprocessing"@) is Some
}

/// Semantic completeness of a document: the root is `questestinterop`,
/// holding an `assessment` holding a `section` with at least one complete
/// item.
pub open spec fn s_doc_complete(root: SpecElement) -> bool {
    &&& root.name == "questestinterop"@
    &&& match s_child_named(root.children, "assessment"@) {
        Some(assessment) => match s_child_named(assessment.children, "section"@) {
            Some(section) => {
                let items = s_items_of(section.children);
                items.len() > 0 && forall|i: int| 0 <= i < items.len() ==> s_item_complete(
                    #[trigger] items[i],
                )
            },
            None => false,
        },
        None => false,
    }
}

impl Validator {
    /// A validator over the QTI 1.2 schema table.
    pub fn new() -> (r: Validator)
        ensures
            r.schema@ =~~= spec_qti_schema(),
    {
        Validator { schema: QtiSchema::qti_1_2_schema() }
    }

    /// Parses XML text into an element tree.
    pub fn parse_xml(&self, xml: &str) -> (r: Result<XmlElement, QtiError>)
        ensures
            match r {
                Ok(e) => parsed_document(xml@) == Some(parsed_model(e@)),
                Err(er) => parsed_document(xml@) is None && er is XmlError,
            },
    {
        match parse_xmltree(xml) {
            Ok(tree) => Ok(from_xmltree(&tree)),
            Err(message) => {
                let mut m = String::from_str("Failed to parse XML: ");
                m.append(message.as_str());
                Err(QtiError::XmlError(m))
            },
        }
    }

    /// Parses XML text and checks it structurally against the schema. The
    /// outcome is decided by the parsed model of the text alone.
    pub fn validate_xml(&self, xml: &str) -> (r: Result<(), QtiError>)
        ensures
            parsed_document(xml@) matches Some(p) ==> (r is Ok <==> crate::laws::p_elem_valid(
                self.schema@,
                p,
                self.schema@.root,
            )),
            parsed_document(xml@) is None ==> r is Err && r->Err_0 is XmlError,
            parsed_document(xml@) is Some && r is Err ==> r->Err_0 is ValidationError,
            r is Err ==> r->Err_0 is XmlError || r->Err_0 is ValidationError,
    {
        let element = match self.parse_xml(xml) {
            Ok(e) => e,
            Err(er) => {
                return Err(er);
            },
        };
        let r = self.schema.validate(&element);
        proof {
            crate::laws::lemma_model_valid(self.schema@, element@, self.schema@.root);
            assert(parsed_model(element@) == parsed_document(xml@)->0);
        }
        r
    }

    /// Structural validation of an already-parsed element tree.
    pub fn validate_element(&self, element: &XmlElement) -> (r: Result<(), QtiError>)
        ensures
            r is Ok <==> s_doc_valid(self.schema@, element@),
            r is Err ==> r->Err_0 is ValidationError,
    {
        self.schema.validate(element)
    }

    /// The completeness check: asserts the `questestinterop` /
    /// `assessment` / `section` chain with at least one item, and the
    /// required parts of every item.
    pub fn validate_completeness(&self, element: &XmlElement) -> (r: Result<(), QtiError>)
        ensures
            r is Ok <==> s_doc_complete(element@),
            r is Err ==> r->Err_0 is ValidationError,
    {
        let root_name = String::from_str("questestinterop");
        proof {
            reveal_strlit("questestinterop");
        }
        if !element.name.eq(&root_name) {
            let mut m = String::from_str("Root element must be 'questestinterop', found '");
            m.append(element.name.as_str());
            m.append("'");
            return Err(QtiError::ValidationError(m));
        }
        let assessment = match element.get_child("assessment") {
            Some(a) => a,
            None => {
                let m = String::from_str("Missing 'assessment' element");
                return Err(QtiError::ValidationError(m));
            },
        };
        let section = match assessment.get_child("section") {
            Some(s) => s,
            None => {
                let m = String::from_str("Missing 'section' element");
                return Err(QtiError::ValidationError(m));
            },
        };
        let ghost items = s_items_of(section@.children);
        let item_name = String::from_str("item");
        proof {
            reveal_strlit("item");
            lemma_nodes_view(section.children@);
            assert(section@.children.skip(0) =~= section@.children);
        }
        let mut found: usize = 0;
        let nc = section.children.len();
        let mut ci: usize = 0;
        while ci < nc
            invariant
                nc == section.children@.len(),
                0 <= ci <= nc,
                element@.name == "questestinterop"@,
                s_child_named(element@.children, "assessment"@) == Some(assessment@),
                s_child_named(assessment@.children, "section"@) == Some(section@),
                items == s_items_of(section@.children),
                section@.children.len() == nc,
                forall|j: int|
                    0 <= j < nc ==> #[trigger] section@.children[j] == node_view(
                        section.children@[j],
                    ),
                item_name@ == "item"@,
                found <= ci,
                s_items_of(section@.children) =~= s_items_of(
                    section@.children.take(ci as int),
                ) + s_items_of(section@.children.skip(ci as int)),
                found == s_items_of(section@.children.take(ci as int)).len(),
                forall|j: int|
                    0 <= j < s_items_of(section@.children.take(ci as int)).len()
                        ==> s_item_complete(#[trigger] s_items_of(
                        section@.children.take(ci as int),
                    )[j]),
            decreases nc - ci,
        {
            proof {
                assert(section@.children.skip(ci as int).drop_first() =~= section@.children.skip(
                    ci + 1,
                ));
                assert(section@.children.skip(ci as int)[0] == section@.children[ci as int]);
                assert(section@.children.take(ci + 1).drop_last() =~= section@.children.take(
                    ci as int,
                ));
                assert(section@.children.take(ci + 1)[ci as int] == section@.children[ci as int]);
                lemma_s_items_take_step(section@.children, ci as int);
            }
            match &section.children[ci] {
                XmlNode::Element(child) => {
                    proof {
                        assert(section.children@[ci as int] == XmlNode::Element(*child));
                        assert(section@.children[ci as int] == SpecNode::Element(child@));
                    }
                    if child.name.eq(&item_name) {
                        match self.validate_item(child) {
                            Ok(()) => {
                                found = found + 1;
                            },
                            Err(e) => {
                                proof {
                                    let bad = child@;
                                    assert(bad.name == "item"@);
                                    assert(!s_item_complete(bad));
                                    lemma_s_items_prefix(section@.children, ci as int, bad);
                                    let j = choose|j: int|
                                        0 <= j < s_items_of(section@.children).len() && s_items_of(
                                            section@.children,
                                        )[j] == bad;
                                    assert(!s_item_complete(s_items_of(section@.children)[j]));
                                    assert(!s_doc_complete(element@));
                                }
                                return Err(e);
                            },
                        }
                    }
                },
                XmlNode::Text(_) => {},
            }
            ci = ci + 1;
        }
        proof {
            assert(section@.children.take(nc as int) =~= section@.children);
            assert(section@.children.skip(nc as int) =~= Seq::<SpecNode>::empty());
            assert(s_items_of(section@.children).len() == found);
        }
        if found == 0 {
            let m = String::from_str("Assessment must contain at least one item");
            return Err(QtiError::ValidationError(m));
        }
        Ok(())
    }

    /// The completeness of one item.
    fn validate_item(&self, item: &XmlElement) -> (r: Result<(), QtiError>)
        ensures
            r is Ok <==> s_item_complete(item@),
            r is Err ==> r->Err_0 is ValidationError,
    {
        if item.get_attribute("ident").is_none() {
            let m = String::from_str("Item missing required 'ident' attribute");
            return Err(QtiError::ValidationError(m));
        }
        let presentation = match item.get_child("presentation") {
            Some(p) => p,
            None => {
                let m = String::from_str("Item missing 'presentation' element");
                return Err(QtiError::ValidationError(m));
            },
        };
        if item.get_child("resprocessing").is_none() {
            let m = String::from_str("Item missing 'resprocessing' element");
            return Err(QtiError::ValidationError(m));
        }
        let material = match presentation.get_child("material") {
            Some(m) => m,
            None => {
                let m = String::from_str("Presentation missing 'material' element");
                return Err(QtiError::ValidationError(m));
            },
        };
        let mattext = match material.get_child("mattext") {
            Some(m) => m,
            None => {
                let m = String::from_str("Material missing 'mattext' element");
                return Err(QtiError::ValidationError(m));
            },
        };
        let text = mattext.get_text();
        let trimmed = trim_str(text.as_str());
        if trimmed.as_str().unicode_len() == 0 {
            let m = String::from_str("Question text cannot be empty");
            return Err(QtiError::ValidationError(m));
        }
        let has_response = presentation.get_child("response_lid").is_some() || presentation
            .get_child("response_str").is_some() || presentation.get_child(
            "response_num",
        ).is_some() || presentation.get_child("response_grp").is_some();
        if !has_response {
            let m = String::from_str("Item presentation missing response element");
            return Err(QtiError::ValidationError(m));
        }
        Ok(())
    }
}

impl Default for Validator {
    fn default() -> (r: Validator)
        ensures
            r.schema@ =~~= spec_qti_schema(),
    {
        Validator::new()
    }
}

/// Splitting a node list splits its items.
proof fn lemma_s_items_take_step(ns: Seq<SpecNode>, ci: int)
    requires
        0 <= ci < ns.len(),
    ensures
        s_items_of(ns.take(ci + 1)) =~= s_items_of(ns.take(ci)) + (match ns[ci] {
            SpecNode::Element(e) => if e.name == "item"@ {
                seq![e]
            } else {
                Seq::empty()
            },
            SpecNode::Text(_) => Seq::empty(),
        }),
    decreases ci,
{
    if ci == 0 {
        assert(ns.take(1).drop_first() =~= Seq::<SpecNode>::empty());
        assert(ns.take(1)[0] == ns[0]);
        assert(ns.take(0) =~= Seq::<SpecNode>::empty());
    } else {
        assert(ns.take(ci + 1).drop_first() =~= ns.drop_first().take(ci));
        assert(ns.take(ci).drop_first() =~= ns.drop_first().take(ci - 1));
        assert(ns.take(ci + 1)[0] == ns[0]);
        assert(ns.take(ci)[0] == ns[0]);
        assert(ns.drop_first()[ci - 1] == ns[ci]);
        lemma_s_items_take_step(ns.drop_first(), ci - 1);
    }
}

/// An incomplete item among the remaining nodes makes the whole item list
/// fail the completeness quantifier.
proof fn lemma_s_items_prefix(ns: Seq<SpecNode>, ci: int, bad: SpecElement)
    requires
        0 <= ci < ns.len(),
        ns[ci] == SpecNode::Element(bad),
        bad.name == "item"@,
    ensures
        exists|j: int| 0 <= j < s_items_of(ns).len() && s_items_of(ns)[j] == bad,
    decreases ci,
{
    if ci == 0 {
        assert(s_items_of(ns)[0] == bad);
    } else {
        lemma_s_items_prefix(ns.drop_first(), ci - 1, bad);
        let j = choose|j: int|
            0 <= j < s_items_of(ns.drop_first()).len() && s_items_of(ns.drop_first())[j] == bad;
        match ns[0] {
            SpecNode::Element(e) => {
                if e.name == "item"@ {
                    assert(s_items_of(ns)[j + 1] == bad);
                } else {
                    assert(s_items_of(ns)[j] == bad);
                }
            },
            SpecNode::Text(_) => {
                assert(s_items_of(ns)[j] == bad);
            },
        }
    }
}

} // verus!
