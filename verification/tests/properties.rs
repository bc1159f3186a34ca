use qti_lib::decimal::Decimal;
use qti_lib::error::QtiError;
use qti_lib::exporter::Exporter;
use qti_lib::generator::Generator;
use qti_lib::parser::Parser;
use qti_lib::types::{Assessment, Choice, Question, QuestionType, generated_id};
use qti_lib::validator::Validator;
use qti_lib::xml::{XmlElement, XmlNode};

fn child_named<'a>(e: &'a XmlElement, name: &str) -> &'a XmlElement {
    for c in &e.children {
        if let XmlNode::Element(el) = c {
            if el.name == name {
                return el;
            }
        }
    }
    panic!("missing child");
}

#[test]
fn parse_counts_every_numbered_block() {
    let input = "1. A?\n* x\n2. B?\n* y\n3. C?\n___\n";
    let parser = Parser::new();
    let assessment = parser.parse(input).unwrap();
    assert_eq!(assessment.questions.len(), 3);
}

#[test]
fn multiple_choice_zero_correct_fails_with_count() {
    let input = "1. Pick one:\na) first\nb) second\n";
    let parser = Parser::new();
    match parser.parse(input) {
        Err(QtiError::ParseError(m)) => {
            assert_eq!(
                m,
                "Multiple choice question must have exactly 1 correct answer, found 0"
            );
        }
        _ => panic!("expected a count-mismatch parse error"),
    }
}

#[test]
fn multiple_choice_two_correct_fails_with_count() {
    let input = "1. Pick one:\n*a) first\n*b) second\nc) third\n";
    let parser = Parser::new();
    match parser.parse(input) {
        Err(QtiError::ParseError(m)) => {
            assert_eq!(
                m,
                "Multiple choice question must have exactly 1 correct answer, found 2"
            );
        }
        _ => panic!("expected a count-mismatch parse error"),
    }
}

#[test]
fn multiple_answer_preserves_marker_order() {
    let input = "1. Select all primes:\n[*] 2\n[*] 3\n[ ] 4\n[*] 5\n";
    let parser = Parser::new();
    let assessment = parser.parse(input).unwrap();
    match &assessment.questions[0].question_type {
        QuestionType::MultipleAnswer { choices, partial_credit } => {
            assert!(*partial_credit);
            assert_eq!(choices.len(), 4);
            assert_eq!(choices[0].text, "2");
            assert_eq!(choices[1].text, "3");
            assert_eq!(choices[2].text, "4");
            assert_eq!(choices[3].text, "5");
            let flags: Vec<bool> = choices.iter().map(|c| c.correct).collect();
            assert_eq!(flags, vec![true, true, false, true]);
        }
        _ => panic!("expected a MultipleAnswer question"),
    }
}

#[test]
fn numerical_with_margin_parses_both_parts() {
    let input = "1. What is pi to two places?\n= 3.14 \u{b1} 0.01\n";
    let parser = Parser::new();
    let assessment = parser.parse(input).unwrap();
    match &assessment.questions[0].question_type {
        QuestionType::Numerical { answer, margin, min, max } => {
            assert_eq!(*answer, Decimal::new(false, 314, 2));
            assert_eq!(*margin, Some(Decimal::new(false, 1, 2)));
            assert!(min.is_none() && max.is_none());
        }
        _ => panic!("expected a Numerical question"),
    }
}

#[test]
fn numerical_without_margin_has_none() {
    let input = "1. How many?\n= 42\n";
    let parser = Parser::new();
    let assessment = parser.parse(input).unwrap();
    match &assessment.questions[0].question_type {
        QuestionType::Numerical { answer, margin, .. } => {
            assert_eq!(*answer, Decimal::new(false, 42, 0));
            assert!(margin.is_none());
        }
        _ => panic!("expected a Numerical question"),
    }
}

#[test]
fn numerical_overflowing_mantissa_is_invalid() {
    let input = "1. Big?\n= 99999999999999999999999999\n";
    let parser = Parser::new();
    match parser.parse(input) {
        Err(QtiError::ParseError(m)) => assert_eq!(m, "Invalid numerical answer"),
        _ => panic!("expected an invalid-number parse error"),
    }
}

#[test]
fn title_line_first_wins_over_hash() {
    let input = "title: From Prefix\n# From Hash\n1. Q?\n* a\n";
    let parser = Parser::new();
    let assessment = parser.parse(input).unwrap();
    assert_eq!(assessment.title, "From Prefix");
}

#[test]
fn hash_line_first_wins_over_title() {
    let input = "## From Hash\ntitle: From Prefix\n1. Q?\n* a\n";
    let parser = Parser::new();
    let assessment = parser.parse(input).unwrap();
    assert_eq!(assessment.title, "From Hash");
}

#[test]
fn title_beyond_fifth_line_is_ignored() {
    let input = "\n\n\n\n\ntitle: Too Late\n1. Q?\n* a\n";
    let parser = Parser::new();
    let assessment = parser.parse(input).unwrap();
    assert_eq!(assessment.title, "Untitled Assessment");
}

#[test]
fn end_to_end_sample_builds_expected_tree() {
    let input = "title: Sample\n1. 2+2?\na) 3\n*b) 4\nc) 5";
    let parser = Parser::new();
    let assessment = parser.parse(input).unwrap();
    assert_eq!(assessment.title, "Sample");
    assert_eq!(assessment.questions.len(), 1);
    match &assessment.questions[0].question_type {
        QuestionType::MultipleChoice { choices, .. } => {
            assert_eq!(choices.len(), 3);
            assert!(!choices[0].correct && choices[1].correct && !choices[2].correct);
        }
        _ => panic!("expected a MultipleChoice question"),
    }

    let builder = qti_lib::builder::QtiBuilder::new();
    let root = builder.build_questestinterop(&assessment).unwrap();
    assert_eq!(root.name, "questestinterop");
    let assessment_elem = child_named(&root, "assessment");
    let section = child_named(assessment_elem, "section");
    let item = child_named(section, "item");
    let presentation = child_named(item, "presentation");
    let material = child_named(presentation, "material");
    let mattext = child_named(material, "mattext");
    assert_eq!(mattext.get_text(), "2+2?");
    let resprocessing = child_named(item, "resprocessing");
    let mut conditions = 0;
    for c in &resprocessing.children {
        if let XmlNode::Element(el) = c {
            if el.name == "respcondition" {
                conditions += 1;
            }
        }
    }
    assert_eq!(conditions, 3);
}

#[test]
fn generated_document_revalidates_after_reparse() {
    let input = "title: Round Trip\n1. 2+2?\na) 3\n*b) 4\nc) 5\n2. Select:\n[*] x\n[ ] y\n";
    let parser = Parser::new();
    let assessment = parser.parse(input).unwrap();
    let generator = Generator::new();
    let xml = generator.generate(&assessment).unwrap();
    let validator = Validator::new();
    validator.validate_xml(&xml).unwrap();
    let reparsed = validator.parse_xml(&xml).unwrap();
    validator.validate_element(&reparsed).unwrap();
    validator.validate_completeness(&reparsed).unwrap();
}

#[test]
fn exporter_round_trips_identifier() {
    let mut assessment = Assessment::new("Ident Trip");
    assessment.identifier = String::from("quiz_xyz");
    assessment.questions.push(Question::new(
        "Q?",
        QuestionType::Essay { expected_length: None, rich_text: true },
    ));
    let exporter = Exporter::new();
    let xml = exporter.export_to_xml(&assessment).unwrap();
    let ident = exporter.extract_assessment_ident(&xml).unwrap();
    assert_eq!(ident, "quiz_xyz");
}

#[test]
fn exporter_package_has_manifest_naming_resource() {
    let mut assessment = Assessment::new("Pack");
    assessment.identifier = String::from("pack_1");
    assessment.questions.push(Question::new(
        "Q?",
        QuestionType::TrueFalse { correct_answer: true },
    ));
    let exporter = Exporter::new();
    let package = exporter.export_package(&assessment).unwrap();
    assert!(package.manifest_xml.contains("pack_1_manifest"));
    assert!(package.manifest_xml.contains("pack_1.xml"));
    assert!(package.assessment_xml.contains("questestinterop"));
    assert!(package.resources.is_empty());
}

#[test]
fn escaped_text_survives_serialisation() {
    let mut assessment = Assessment::new("Escapes & Such");
    assessment.questions.push(Question::new(
        "Is 1 < 2 & 3 > 2?",
        QuestionType::TrueFalse { correct_answer: true },
    ));
    let generator = Generator::new();
    let xml = generator.generate(&assessment).unwrap();
    assert!(xml.contains("&lt;"));
    assert!(xml.contains("&amp;"));
    let validator = Validator::new();
    let reparsed = validator.parse_xml(&xml).unwrap();
    let assessment_elem = child_named(&reparsed, "assessment");
    let section = child_named(assessment_elem, "section");
    let item = child_named(section, "item");
    let presentation = child_named(item, "presentation");
    let material = child_named(presentation, "material");
    let mattext = child_named(material, "mattext");
    assert_eq!(mattext.get_text(), "Is 1 < 2 & 3 > 2?");
}

#[test]
fn unclassifiable_line_reports_its_index() {
    let input = "1. Q?\nzzz unclassifiable\n";
    let parser = Parser::new();
    match parser.parse(input) {
        Err(QtiError::InvalidFormat { line, message }) => {
            assert_eq!(line, 1);
            assert_eq!(message, "Cannot determine question type from: zzz unclassifiable");
        }
        _ => panic!("expected a classification error"),
    }
}

#[test]
fn two_underscores_are_not_an_essay_marker() {
    let input = "1. Q?\n__\n";
    let parser = Parser::new();
    assert!(matches!(
        parser.parse(input),
        Err(QtiError::InvalidFormat { .. })
    ));
}

#[test]
fn empty_document_has_no_questions() {
    let parser = Parser::new();
    match parser.parse("") {
        Err(QtiError::ParseError(m)) => assert_eq!(m, "No questions found in input"),
        _ => panic!("expected a document-level parse error"),
    }
}

#[test]
fn malformed_xml_is_an_xml_error() {
    let validator = Validator::new();
    assert!(matches!(
        validator.parse_xml("<unclosed"),
        Err(QtiError::XmlError(_))
    ));
}

#[test]
fn unknown_root_is_a_validation_error() {
    let validator = Validator::new();
    assert!(matches!(
        validator.validate_xml("<somethingelse/>"),
        Err(QtiError::ValidationError(_))
    ));
}

#[test]
fn remaining_error_variants_carry_their_detail() {
    let missing = QtiError::MissingField(String::from("identifier"));
    assert_eq!(missing.detail().as_str(), "identifier");
    let config = QtiError::ConfigError(String::from("bad option"));
    assert_eq!(config.detail().as_str(), "bad option");
}

#[test]
fn feedback_and_solution_lines_attach_to_the_question() {
    let input = "1. Q?\n*a) yes\nb) no\nfeedback: general note\ncorrect: well done\nincorrect: try again\nsolution: because\n";
    let parser = Parser::new();
    let assessment = parser.parse(input).unwrap();
    let q = &assessment.questions[0];
    let f = q.feedback.as_ref().expect("feedback should be attached");
    assert_eq!(f.general.as_deref(), Some("general note"));
    assert_eq!(f.correct.as_deref(), Some("well done"));
    assert_eq!(f.incorrect.as_deref(), Some("try again"));
    assert_eq!(q.solution.as_deref(), Some("because"));
}

#[test]
fn decimal_rendering_matches_place_value() {
    assert_eq!(Decimal::from_int(1).to_text(), "1");
    assert_eq!(Decimal::from_int(7).to_text(), "7");
    assert_eq!(Decimal::new(false, 314, 2).to_text(), "3.14");
    assert_eq!(Decimal::new(false, 5, 2).to_text(), "0.05");
    assert_eq!(Decimal::new(true, 25, 1).to_text(), "-2.5");
}

#[test]
fn decimal_halving_and_product() {
    assert_eq!(Decimal::one().halved(), Decimal::new(false, 5, 1));
    assert_eq!(Decimal::one().halved().to_text(), "0.5");
    assert_eq!(Decimal::from_int(4).halved(), Decimal::new(false, 2, 0));
    let p = Decimal::new(false, 15, 1).times(&Decimal::from_int(2));
    assert_eq!(p, Decimal::new(false, 30, 1));
    assert_eq!(p.to_text(), "3.0");
}

#[test]
fn generated_identifiers_carry_prefix_and_uuid() {
    let id = generated_id("question_");
    assert_eq!(id.len(), "question_".len() + 36);
    assert!(id.starts_with("question_"));
    let other = generated_id("question_");
    assert_ne!(id, other);
    let c = Choice::new("text", true);
    assert!(c.id.starts_with("choice_"));
}

#[test]
fn canvas_extensions_add_metadata_blocks() {
    let mut assessment = Assessment::new("Canvas");
    assessment.time_limit = Some(30);
    assessment.questions.push(Question::new(
        "Q?",
        QuestionType::ShortAnswer {
            answers: vec![qti_lib::types::AcceptableAnswer::new("a")],
            case_sensitive: false,
        },
    ));
    let generator = Generator::new().with_canvas_extensions();
    let xml = generator.generate(&assessment).unwrap();
    assert!(xml.contains("qtimetadata"));
    assert!(xml.contains("time_limit"));
    assert!(xml.contains("points_possible"));
    let validator = Validator::new();
    validator.validate_xml(&xml).unwrap();
}

#[test]
fn completeness_rejects_blank_question_text() {
    let mut assessment = Assessment::new("Blank");
    assessment.questions.push(Question::new(
        "   ",
        QuestionType::Essay { expected_length: None, rich_text: true },
    ));
    let generator = Generator::new();
    let xml = generator.generate(&assessment).unwrap();
    let validator = Validator::new();
    let tree = validator.parse_xml(&xml).unwrap();
    assert!(matches!(
        validator.validate_completeness(&tree),
        Err(QtiError::ValidationError(_))
    ));
}

#[test]
fn skip_validation_still_exports() {
    let mut assessment = Assessment::new("Skip");
    assessment.questions.push(Question::new(
        "Q?",
        QuestionType::FileUpload {
            allowed_extensions: vec![String::from("pdf")],
        },
    ));
    let exporter = Exporter::new().skip_validation();
    let xml = exporter.export_to_xml(&assessment).unwrap();
    assert!(xml.contains("response_str"));
}

fn attr<'a>(e: &'a XmlElement, key: &str) -> &'a str {
    for (k, v) in &e.attributes {
        if k == key {
            return v;
        }
    }
    panic!("missing attribute");
}

#[test]
fn true_false_scores_its_two_synthesized_choices() {
    let mut assessment = Assessment::new("TF");
    assessment.questions.push(Question::new(
        "Is the sky blue?",
        QuestionType::TrueFalse { correct_answer: true },
    ));
    let builder = qti_lib::builder::QtiBuilder::new();
    let root = builder.build_questestinterop(&assessment).unwrap();
    let assessment_elem = child_named(&root, "assessment");
    let section = child_named(assessment_elem, "section");
    let item = child_named(section, "item");

    let presentation = child_named(item, "presentation");
    let response_lid = child_named(presentation, "response_lid");
    let render_choice = child_named(response_lid, "render_choice");
    let mut label_idents: Vec<String> = Vec::new();
    for c in &render_choice.children {
        if let XmlNode::Element(el) = c {
            if el.name == "response_label" {
                label_idents.push(attr(el, "ident").to_string());
            }
        }
    }
    assert_eq!(label_idents.len(), 2);

    let resprocessing = child_named(item, "resprocessing");
    let mut conditions: Vec<&XmlElement> = Vec::new();
    for c in &resprocessing.children {
        if let XmlNode::Element(el) = c {
            if el.name == "respcondition" {
                conditions.push(el);
            }
        }
    }
    assert_eq!(conditions.len(), 2);
    // the True choice matches the answer and earns the points
    let first_var = child_named(child_named(conditions[0], "conditionvar"), "varequal");
    assert_eq!(first_var.get_text(), label_idents[0]);
    assert_eq!(child_named(conditions[0], "setvar").get_text(), "1");
    let second_var = child_named(child_named(conditions[1], "conditionvar"), "varequal");
    assert_eq!(second_var.get_text(), label_idents[1]);
    assert_eq!(child_named(conditions[1], "setvar").get_text(), "0");
    assert_eq!(attr(conditions[0], "continue"), "No");
    assert_eq!(attr(conditions[1], "continue"), "No");

    let generator = Generator::new();
    let xml = generator.generate(&assessment).unwrap();
    Validator::new().validate_xml(&xml).unwrap();
}

#[test]
fn true_false_answering_false_flips_the_scores() {
    let mut assessment = Assessment::new("TF");
    assessment.questions.push(Question::new(
        "Is the sky green?",
        QuestionType::TrueFalse { correct_answer: false },
    ));
    let builder = qti_lib::builder::QtiBuilder::new();
    let root = builder.build_questestinterop(&assessment).unwrap();
    let assessment_elem = child_named(&root, "assessment");
    let section = child_named(assessment_elem, "section");
    let item = child_named(section, "item");
    let resprocessing = child_named(item, "resprocessing");
    let mut scores: Vec<String> = Vec::new();
    for c in &resprocessing.children {
        if let XmlNode::Element(el) = c {
            if el.name == "respcondition" {
                scores.push(child_named(el, "setvar").get_text());
            }
        }
    }
    assert_eq!(scores, vec![String::from("0"), String::from("1")]);
}

#[test]
fn extract_ident_reports_missing_parts() {
    let exporter = Exporter::new();
    assert!(matches!(
        exporter.extract_assessment_ident("<unclosed"),
        Err(QtiError::XmlError(_))
    ));
    assert!(matches!(
        exporter.extract_assessment_ident("<questestinterop/>"),
        Err(QtiError::XmlError(_))
    ));
    assert!(matches!(
        exporter.extract_assessment_ident("<questestinterop><assessment/></questestinterop>"),
        Err(QtiError::XmlError(_))
    ));
}
