//! The exporter: generates a package and validates the generated document
//! before it is handed to the packaging collaborator.

use vstd::prelude::*;
use crate::builder::builds_questestinterop;
use crate::error::QtiError;
use crate::generator::{Generator, QtiPackage, serialises, spec_manifest};
use crate::text::s_starts_with;
use crate::types::Assessment;
use crate::xml::SpecElement;
use crate::xmlio::{from_xmltree, parse_xmltree, parsed_document, parsed_model, rt_related};

verus! {

/// Exports assessments to QTI packages.
pub struct Exporter {
    pub generator: Generator,
    pub validator: crate::validator::Validator,
    pub validate_before_export: bool,
}

impl Exporter {
    pub fn new() -> (r: Exporter)
        ensures
            !r.generator.builder.canvas_extensions,
            r.generator.pretty_print,
            r.validator.schema@ =~~= crate::schema::spec_qti_schema(),
            r.validate_before_export,
    {
        Exporter {
            generator: Generator::new(),
            validator: crate::validator::Validator::new(),
            validate_before_export: true,
        }
    }

    pub fn with_canvas_extensions(self) -> (r: Exporter)
        ensures
            r.generator.builder.canvas_extensions,
            r.generator.pretty_print == self.generator.pretty_print,
            r.validator == self.validator,
            r.validate_before_export == self.validate_before_export,
    {
        Exporter {
            generator: self.generator.with_canvas_extensions(),
            validator: self.validator,
            validate_before_export: self.validate_before_export,
        }
    }

    pub fn skip_validation(self) -> (r: Exporter)
        ensures
            r.generator == self.generator,
            r.validator == self.validator,
            !r.validate_before_export,
    {
        Exporter {
            generator: self.generator,
            validator: self.validator,
            validate_before_export: false,
        }
    }

    /// Generates the assessment document as an XML string, validating it
    /// structurally unless validation was skipped. For an assessment whose
    /// strings hold only legal XML characters this always succeeds against
    /// the QTI 1.2 schema: every generated document re-parses and passes
    /// the structural check.
    pub fn export_to_xml(&self, assessment: &Assessment) -> (r: Result<String, QtiError>)
        ensures
            crate::laws::assessment_xml_safe(*assessment) && self.validator.schema@
                =~~= crate::schema::spec_qti_schema() ==> r is Ok,
            match r {
                Ok(xml) => {
                    &&& s_starts_with(xml@, "<?xml"@)
                    &&& exists|t: SpecElement|
                        #[trigger] builds_questestinterop(
                            *assessment,
                            self.generator.builder.canvas_extensions,
                            t,
                        ) && serialises(t, Result::<String, QtiError>::Ok(xml))
                    &&& self.validate_before_export ==> (parsed_document(xml@) matches Some(p)
                        && crate::laws::p_elem_valid(
                        self.validator.schema@,
                        p,
                        self.validator.schema@.root,
                    ))
                },
                Err(e) => e is XmlError || e is ValidationError,
            },
    {
        let ghost ext = self.generator.builder.canvas_extensions;
        let result = self.generator.generate(assessment);
        let ghost gres = result;
        let ghost t = choose|t: SpecElement|
            #[trigger] builds_questestinterop(*assessment, ext, t) && serialises(t, gres);
        proof {
            if crate::laws::assessment_xml_safe(*assessment) {
                let (sid, tf) = choose|sid: Seq<char>, tf: Seq<(Seq<char>, Seq<char>)>|
                    crate::types::is_generated_id(sid, "section_"@) && tf.len()
                        == assessment.questions@.len() && (forall|i: int|
                        0 <= i < tf.len() ==> crate::types::is_generated_id(
                            (#[trigger] tf[i]).0,
                            "choice_"@,
                        ) && crate::types::is_generated_id(tf[i].1, "choice_"@)) && t =~~= #[trigger] crate::builder::spec_questestinterop(
                        *assessment,
                        ext,
                        sid,
                        tf,
                    );
                crate::laws::lemma_built_good(*assessment, ext, sid, tf);
                assert(result is Ok);
            }
        }
        let xml = match result {
            Ok(s) => s,
            Err(e) => {
                return Err(e);
            },
        };
        if self.validate_before_export {
            let checked = self.validator.validate_xml(xml.as_str());
            proof {
                if crate::laws::assessment_xml_safe(*assessment) && self.validator.schema@
                    =~~= crate::schema::spec_qti_schema() {
                    let p = parsed_document(xml@)->0;
                    assert(rt_related(parsed_model(t), p));
                    let schema = crate::schema::spec_qti_schema();
                    let (sid, tf) = choose|sid: Seq<char>, tf: Seq<(Seq<char>, Seq<char>)>|
                        crate::types::is_generated_id(sid, "section_"@) && tf.len()
                            == assessment.questions@.len() && (forall|i: int|
                            0 <= i < tf.len() ==> crate::types::is_generated_id(
                                (#[trigger] tf[i]).0,
                                "choice_"@,
                            ) && crate::types::is_generated_id(tf[i].1, "choice_"@)) && t =~~= #[trigger] crate::builder::spec_questestinterop(
                            *assessment,
                            ext,
                            sid,
                            tf,
                        );
                    crate::laws::lemma_built_good(*assessment, ext, sid, tf);
                    crate::laws::lemma_model_valid(schema, t, schema.root);
                    crate::laws::lemma_qti_schema_plain();
                    crate::laws::lemma_rt_preserves_valid(
                        schema,
                        parsed_model(t),
                        p,
                        schema.root,
                    );
                    assert(checked is Ok);
                }
            }
            match checked {
                Ok(()) => {},
                Err(e) => {
                    return Err(e);
                },
            }
        }
        Ok(xml)
    }

    /// Generates the package — the assessment document and the manifest —
    /// validating the document unless validation was skipped. For an
    /// assessment whose strings hold only legal XML characters this always
    /// succeeds against the QTI 1.2 schema.
    pub fn export_package(&self, assessment: &Assessment) -> (r: Result<QtiPackage, QtiError>)
        ensures
            crate::laws::assessment_xml_safe(*assessment) && self.validator.schema@
                =~~= crate::schema::spec_qti_schema() ==> r is Ok,
            match r {
                Ok(p) => {
                    &&& s_starts_with(p.assessment_xml@, "<?xml"@)
                    &&& exists|t: SpecElement|
                        #[trigger] builds_questestinterop(
                            *assessment,
                            self.generator.builder.canvas_extensions,
                            t,
                        ) && serialises(t, Result::<String, QtiError>::Ok(p.assessment_xml))
                    &&& serialises(
                        spec_manifest(assessment.identifier@),
                        Result::<String, QtiError>::Ok(p.manifest_xml),
                    )
                    &&& p.resources@.len() == 0
                    &&& self.validate_before_export ==> (parsed_document(p.assessment_xml@)
                        matches Some(pd) && crate::laws::p_elem_valid(
                        self.validator.schema@,
                        pd,
                        self.validator.schema@.root,
                    ))
                },
                Err(e) => e is XmlError || e is ValidationError,
            },
    {
        let ghost ext = self.generator.builder.canvas_extensions;
        let package = match self.generator.generate_package(assessment) {
            Ok(p) => p,
            Err(e) => {
                return Err(e);
            },
        };
        let ghost t = choose|t: SpecElement|
            #[trigger] builds_questestinterop(*assessment, ext, t) && serialises(
                t,
                Result::<String, QtiError>::Ok(package.assessment_xml),
            );
        if self.validate_before_export {
            let checked = self.validator.validate_xml(package.assessment_xml.as_str());
            proof {
                if crate::laws::assessment_xml_safe(*assessment) && self.validator.schema@
                    =~~= crate::schema::spec_qti_schema() {
                    let (sid, tf) = choose|sid: Seq<char>, tf: Seq<(Seq<char>, Seq<char>)>|
                        crate::types::is_generated_id(sid, "section_"@) && tf.len()
                            == assessment.questions@.len() && (forall|i: int|
                            0 <= i < tf.len() ==> crate::types::is_generated_id(
                                (#[trigger] tf[i]).0,
                                "choice_"@,
                            ) && crate::types::is_generated_id(tf[i].1, "choice_"@)) && t =~~= #[trigger] crate::builder::spec_questestinterop(
                            *assessment,
                            ext,
                            sid,
                            tf,
                        );
                    crate::laws::lemma_built_good(*assessment, ext, sid, tf);
                    let p = parsed_document(package.assessment_xml@)->0;
                    assert(rt_related(parsed_model(t), p));
                    let schema = crate::schema::spec_qti_schema();
                    crate::laws::lemma_model_valid(schema, t, schema.root);
                    crate::laws::lemma_qti_schema_plain();
                    crate::laws::lemma_rt_preserves_valid(
                        schema,
                        parsed_model(t),
                        p,
                        schema.root,
                    );
                    assert(checked is Ok);
                }
            }
            match checked {
                Ok(()) => {},
                Err(e) => {
                    return Err(e);
                },
            }
        }
        Ok(package)
    }

    /// Reads the assessment identifier back out of a generated document:
    /// succeeds exactly when the text parses to a tree holding an
    /// `assessment` element child with an `ident` attribute, and then
    /// returns that attribute's value.
    pub fn extract_assessment_ident(&self, xml: &str) -> (r: Result<String, QtiError>)
        ensures
            match parsed_document(xml@) {
                Some(p) => {
                    &&& (r is Ok <==> (crate::laws::p_child_named(p.children, "assessment"@)
                        matches Some(ae) && ae.attrs.contains_key("ident"@)))
                    &&& (r matches Ok(ident) ==> (crate::laws::p_child_named(
                        p.children,
                        "assessment"@,
                    ) matches Some(ae) && ident@ == ae.attrs["ident"@]))
                },
                None => r is Err,
            },
            r is Err ==> r->Err_0 is XmlError,
    {
        let element = match parse_xmltree(xml) {
            Ok(tree) => from_xmltree(&tree),
            Err(message) => {
                let mut m = String::from_str("Failed to parse XML: ");
                m.append(message.as_str());
                return Err(QtiError::XmlError(m));
            },
        };
        proof {
            crate::laws::lemma_p_child_named(element@.children, "assessment"@);
        }
        let assessment = match element.get_child("assessment") {
            Some(a) => a,
            None => {
                let m = String::from_str("No assessment element found");
                return Err(QtiError::XmlError(m));
            },
        };
        match assessment.get_attribute("ident") {
            Some(v) => Ok(v.clone()),
            None => {
                let m = String::from_str("Assessment missing ident attribute");
                Err(QtiError::XmlError(m))
            },
        }
    }
}

impl Default for Exporter {
    fn default() -> (r: Exporter)
        ensures
            !r.generator.builder.canvas_extensions,
            r.validate_before_export,
    {
        Exporter::new()
    }
}

} // verus!
