//! The generator: serialises a built element tree to an XML string with a
//! document declaration, and produces the package manifest naming the
//! assessment resource.

use vstd::prelude::*;
use crate::builder::{QtiBuilder, builds_questestinterop};
use crate::error::QtiError;
use crate::text::s_starts_with;
use crate::types::Assessment;
use crate::xml::{SpecElement, SpecNode, XmlElement};
use crate::xmlio::{
    attrs_distinct, parsed_document, parsed_model, rt_related, within_read_limits, writable,
    write_document,
};

verus! {

/// Converts assessments to QTI XML text.
pub struct Generator {
    pub builder: QtiBuilder,
    pub pretty_print: bool,
}

/// The serialised form of an element tree: for a tree with distinct
/// attribute keys and a writable shape, serialisation succeeds, and within
/// the reader's size limits re-parsing the output yields a tree related to
/// it by [`rt_related`].
pub open spec fn serialises(t: SpecElement, r: Result<String, QtiError>) -> bool {
    &&& (attrs_distinct(t) && writable(parsed_model(t)) ==> r is Ok)
    &&& (attrs_distinct(t) && writable(parsed_model(t)) && within_read_limits(t) && r is Ok ==> (
    match parsed_document(r->Ok_0@) {
        Some(p) => rt_related(parsed_model(t), p),
        None => false,
    }))
    &&& (r is Ok ==> s_starts_with(r->Ok_0@, "<?xml"@))
    &&& (r is Err ==> r->Err_0 is XmlError)
}

/// The IMS content-package manifest for an assessment identifier: metadata,
/// an empty organizations block, and one resource naming the assessment
/// file `<identifier>.xml`.
pub open spec fn spec_manifest(ident: Seq<char>) -> SpecElement {
    SpecElement {
        name: "manifest"@,
        attrs: seq![
            ("identifier"@, ident + "_manifest"@),
            ("xmlns"@, "http://www.imsglobal.org/xsd/imsccv1p1/imscp_v1p1"@),
            ("xmlns:lom"@, "http://ltsc.ieee.org/xsd/imsccv1p1/LOM/resource"@),
            ("xmlns:lomimscc"@, "http://ltsc.ieee.org/xsd/imsccv1p1/LOM/manifest"@),
            ("xmlns:xsi"@, "http://www.w3.org/2001/XMLSchema-instance"@),
            (
                "xsi:schemaLocation"@,
                "http://www.imsglobal.org/xsd/imsccv1p1/imscp_v1p1 http://www.imsglobal.org/profile/cc/ccv1p1/ccv1p1_imscp_v1p2_v1p0.xsd"@,
            ),
        ],
        children: seq![
            SpecNode::Element(
                SpecElement {
                    name: "metadata"@,
                    attrs: Seq::empty(),
                    children: seq![
                        SpecNode::Element(
                            SpecElement {
                                name: "schema"@,
                                attrs: Seq::empty(),
                                children: seq![SpecNode::Text("IMS Content"@)],
                            },
                        ),
                        SpecNode::Element(
                            SpecElement {
                                name: "schemaversion"@,
                                attrs: Seq::empty(),
                                children: seq![SpecNode::Text("1.1.3"@)],
                            },
                        ),
                    ],
                },
            ),
            SpecNode::Element(
                SpecElement {
                    name: "organizations"@,
                    attrs: Seq::empty(),
                    children: Seq::empty(),
                },
            ),
            SpecNode::Element(
                SpecElement {
                    name: "resources"@,
                    attrs: Seq::empty(),
                    children: seq![
                        SpecNode::Element(
                            SpecElement {
                                name: "resource"@,
                                attrs: seq![
                                    ("identifier"@, ident + "_resource"@),
                                    ("type"@, "imsqti_xmlv1p2"@),
                                    ("href"@, ident + ".xml"@),
                                ],
                                children: seq![
                                    SpecNode::Element(
                                        SpecElement {
                                            name: "file"@,
                                            attrs: seq![("href"@, ident + ".xml"@)],
                                            children: Seq::empty(),
                                        },
                                    ),
                                ],
                            },
                        ),
                    ],
                },
            ),
        ],
    }
}

/// A complete generated package: the assessment document, the manifest and
/// any auxiliary resources.
pub struct QtiPackage {
    pub assessment_xml: String,
    pub manifest_xml: String,
    pub resources: Vec<QtiResource>,
}

pub struct QtiResource {
    pub filename: String,
    pub content: Vec<u8>,
}

impl Generator {
    pub fn new() -> (r: Generator)
        ensures
            !r.builder.canvas_extensions,
            r.pretty_print,
    {
        Generator { builder: QtiBuilder::new(), pretty_print: true }
    }

    pub fn with_canvas_extensions(self) -> (r: Generator)
        ensures
            r.builder.canvas_extensions,
            r.pretty_print == self.pretty_print,
    {
        Generator { builder: self.builder.with_canvas_extensions(), pretty_print: self.pretty_print }
    }

    pub fn pretty_print(self, enabled: bool) -> (r: Generator)
        ensures
            r.builder == self.builder,
            r.pretty_print == enabled,
    {
        Generator { builder: self.builder, pretty_print: enabled }
    }

    fn element_to_xml_string(&self, element: &XmlElement) -> (r: Result<String, QtiError>)
        ensures
            serialises(element@, r),
    {
        match write_document(element, self.pretty_print) {
            Ok(s) => Ok(s),
            Err(m) => Err(QtiError::XmlError(m)),
        }
    }

    /// Generates the QTI XML document of an assessment.
    pub fn generate(&self, assessment: &Assessment) -> (r: Result<String, QtiError>)
        ensures
            exists|t: SpecElement|
                #[trigger] builds_questestinterop(*assessment, self.builder.canvas_extensions, t)
                    && serialises(t, r),
    {
        let root = match self.builder.build_questestinterop(assessment) {
            Ok(e) => e,
            Err(e) => {
                proof {
                    assert(false);
                }
                return Err(e);
            },
        };
        self.element_to_xml_string(&root)
    }

    /// Generates the package manifest of an assessment.
    pub fn generate_manifest(&self, assessment: &Assessment) -> (r: Result<String, QtiError>)
        ensures
            serialises(spec_manifest(assessment.identifier@), r),
    {
        let mut manifest = XmlElement::new("manifest");
        let ident = &assessment.identifier;
        let mut id_manifest = ident.as_str().to_owned();
        id_manifest.append("_manifest");
        manifest.add_attribute("identifier", id_manifest.as_str());
        manifest.add_attribute("xmlns", "http://www.imsglobal.org/xsd/imsccv1p1/imscp_v1p1");
        manifest.add_attribute("xmlns:lom", "http://ltsc.ieee.org/xsd/imsccv1p1/LOM/resource");
        manifest.add_attribute(
            "xmlns:lomimscc",
            "http://ltsc.ieee.org/xsd/imsccv1p1/LOM/manifest",
        );
        manifest.add_attribute("xmlns:xsi", "http://www.w3.org/2001/XMLSchema-instance");
        manifest.add_attribute(
            "xsi:schemaLocation",
            "http://www.imsglobal.org/xsd/imsccv1p1/imscp_v1p1 http://www.imsglobal.org/profile/cc/ccv1p1/ccv1p1_imscp_v1p2_v1p0.xsd",
        );
        let mut metadata = XmlElement::new("metadata");
        let mut schema = XmlElement::new("schema");
        schema.add_text("IMS Content");
        proof {
            assert(schema@ =~~= SpecElement {
                name: "schema"@,
                attrs: Seq::empty(),
                children: seq![SpecNode::Text("IMS Content"@)],
            });
        }
        metadata.add_child(schema);
        let mut schemaversion = XmlElement::new("schemaversion");
        schemaversion.add_text("1.1.3");
        proof {
            assert(schemaversion@ =~~= SpecElement {
                name: "schemaversion"@,
                attrs: Seq::empty(),
                children: seq![SpecNode::Text("1.1.3"@)],
            });
        }
        metadata.add_child(schemaversion);
        proof {
            let target = spec_manifest(assessment.identifier@).children[0]->Element_0;
            assert(metadata@.name == target.name);
            assert(metadata@.attrs =~~= target.attrs);
            assert(metadata@.children.len() == target.children.len());
            assert(metadata@.children[0] == target.children[0]);
            assert(metadata@.children[1] == target.children[1]);
            assert(metadata@.children =~~= target.children);
            assert(metadata@ =~~= target);
        }
        manifest.add_child(metadata);
        let organizations = XmlElement::new("organizations");
        manifest.add_child(organizations);
        let mut resources = XmlElement::new("resources");
        let mut resource = XmlElement::new("resource");
        let mut id_resource = ident.as_str().to_owned();
        id_resource.append("_resource");
        resource.add_attribute("identifier", id_resource.as_str());
        resource.add_attribute("type", "imsqti_xmlv1p2");
        let mut href = ident.as_str().to_owned();
        href.append(".xml");
        resource.add_attribute("href", href.as_str());
        let mut file = XmlElement::new("file");
        file.add_attribute("href", href.as_str());
        proof {
            assert(file@ =~~= SpecElement {
                name: "file"@,
                attrs: seq![("href"@, assessment.identifier@ + ".xml"@)],
                children: Seq::empty(),
            });
        }
        resource.add_child(file);
        proof {
            assert(resource@ =~~= spec_manifest(
                assessment.identifier@,
            ).children[2]->Element_0.children[0]->Element_0);
        }
        resources.add_child(resource);
        proof {
            assert(resources@ =~~= spec_manifest(assessment.identifier@).children[2]->Element_0);
        }
        manifest.add_child(resources);
        proof {
            assert(manifest@.children =~~= spec_manifest(assessment.identifier@).children);
            assert(manifest@ =~~= spec_manifest(assessment.identifier@));
        }
        self.element_to_xml_string(&manifest)
    }

    /// Generates the complete package: the assessment document and its
    /// manifest, with no auxiliary resources. For an assessment whose
    /// strings hold only legal XML characters, generation always succeeds.
    pub fn generate_package(&self, assessment: &Assessment) -> (r: Result<QtiPackage, QtiError>)
        ensures
            crate::laws::assessment_xml_safe(*assessment) ==> r is Ok,
            match r {
                Ok(p) => {
                    &&& exists|t: SpecElement|
                        #[trigger] builds_questestinterop(
                            *assessment,
                            self.builder.canvas_extensions,
                            t,
                        ) && serialises(t, Result::<String, QtiError>::Ok(p.assessment_xml))
                    &&& serialises(
                        spec_manifest(assessment.identifier@),
                        Result::<String, QtiError>::Ok(p.manifest_xml),
                    )
                    &&& p.resources@.len() == 0
                },
                Err(e) => e is XmlError,
            },
    {
        let ghost ext = self.builder.canvas_extensions;
        let generated = self.generate(assessment);
        let ghost gres = generated;
        proof {
            if crate::laws::assessment_xml_safe(*assessment) {
                let t = choose|t: SpecElement|
                    #[trigger] builds_questestinterop(*assessment, ext, t) && serialises(t, gres);
                let (sid, tf) = choose|sid: Seq<char>, tf: Seq<(Seq<char>, Seq<char>)>|
                    crate::types::is_generated_id(sid, "section_"@) && tf.len()
                        == assessment.questions@.len() && (forall|i: int|
                        0 <= i < tf.len() ==> crate::types::is_generated_id(
                            (#[trigger] tf[i]).0,
                            "choice_"@,
                        ) && crate::types::is_generated_id(tf[i].1, "choice_"@)) && t =~~= #[trigger] crate::builder::spec_questestinterop(
                        *assessment,
                        ext,
                        sid,
                        tf,
                    );
                crate::laws::lemma_built_good(*assessment, ext, sid, tf);
                assert(generated is Ok);
            }
        }
        let xml = match generated {
            Ok(s) => s,
            Err(e) => {
                return Err(e);
            },
        };
        let manifested = self.generate_manifest(assessment);
        proof {
            if crate::laws::assessment_xml_safe(*assessment) {
                crate::laws::lemma_manifest_good(assessment.identifier@);
                assert(manifested is Ok);
            }
        }
        let manifest = match manifested {
            Ok(s) => s,
            Err(e) => {
                return Err(e);
            },
        };
        Ok(QtiPackage { assessment_xml: xml, manifest_xml: manifest, resources: Vec::new() })
    }
}

impl Default for Generator {
    fn default() -> (r: Generator)
        ensures
            !r.builder.canvas_extensions,
            r.pretty_print,
    {
        Generator::new()
    }
}

} // verus!
