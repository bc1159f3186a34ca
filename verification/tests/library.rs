use qti_lib::decimal::Decimal;
use qti_lib::text::sanitize_filename;
use qti_lib::exporter::Exporter;
use qti_lib::generator::Generator;
use qti_lib::parser::Parser;
use qti_lib::schema::QtiSchema;
use qti_lib::types::{AcceptableAnswer, Assessment, Choice, Question, QuestionType};
use qti_lib::validator::Validator;

#[test]
fn test_qti_schema_creation() {
    let schema = QtiSchema::qti_1_2_schema();
    assert_eq!(schema.root, "questestinterop");
    assert!(!schema.elements.is_empty());

    let assessment = schema
        .elements
        .iter()
        .find(|e| e.name == "assessment")
        .expect("assessment element should be defined");

    assert!(assessment.attributes.iter().any(|a| a.name == "ident"));
    assert!(assessment.attributes.iter().any(|a| a.name == "title"));
}

#[test]
fn test_validate_generated_xml() {
    let mut assessment = Assessment::new("Test Assessment");

    let mut question = Question::new(
        "What is 2 + 2?",
        QuestionType::MultipleChoice {
            choices: vec![
                Choice::new("3", false),
                Choice::new("4", true),
                Choice::new("5", false),
            ],
            shuffle: false,
        },
    );
    question.points = Decimal::one();
    assessment.questions.push(question);

    let generator = Generator::new();
    let xml = generator
        .generate(&assessment)
        .expect("Should generate XML");

    let validator = Validator::new();
    validator
        .validate_xml(&xml)
        .expect("Generated XML should be valid");

    let element = validator.parse_xml(&xml).expect("Should parse XML");
    validator
        .validate_completeness(&element)
        .expect("Should be complete");
}

#[test]
fn test_export_to_xml() {
    let mut assessment = Assessment::new("XML Test");
    assessment.questions.push(Question::new(
        "Test question",
        QuestionType::ShortAnswer {
            answers: vec![AcceptableAnswer::new("answer")],
            case_sensitive: false,
        },
    ));

    let exporter = Exporter::new();
    let xml = exporter
        .export_to_xml(&assessment)
        .expect("Should export to XML");

    assert!(xml.contains("<?xml version"));
    assert!(xml.contains("questestinterop"));
    assert!(xml.contains("assessment"));
    assert!(xml.contains("Test question"));
}

#[test]
fn test_parse_multiple_choice() {
    let input = r#"
title: Sample Quiz

1. What is 2 + 2?
a) 3
*b) 4
c) 5
d) 6

2. What is the capital of France?
*a) Paris
b) London
c) Berlin
d) Madrid
"#;

    let parser = Parser::new();
    let assessment = parser.parse(input).unwrap();

    assert_eq!(assessment.title, "Sample Quiz");
    assert_eq!(assessment.questions.len(), 2);

    let q1 = &assessment.questions[0];
    assert_eq!(q1.text, "What is 2 + 2?");
    if let QuestionType::MultipleChoice { choices, .. } = &q1.question_type {
        assert_eq!(choices.len(), 4);
        assert!(!choices[0].correct);
        assert!(choices[1].correct);
    } else {
        panic!("Expected MultipleChoice question type");
    }
}

#[test]
fn test_parse_short_answer() {
    let input = r#"
1. What is the largest planet in our solar system?
* Jupiter
* jupiter

2. Name a primary color.
* red
* blue
* yellow
"#;

    let parser = Parser::new();
    let assessment = parser.parse(input).unwrap();

    assert_eq!(assessment.questions.len(), 2);

    let q1 = &assessment.questions[0];
    if let QuestionType::ShortAnswer { answers, .. } = &q1.question_type {
        assert_eq!(answers.len(), 2);
        assert_eq!(answers[0].text, "Jupiter");
        assert_eq!(answers[1].text, "jupiter");
    } else {
        panic!("Expected ShortAnswer question type");
    }
}

#[test]
fn test_sanitize_filename() {
    assert_eq!(sanitize_filename("My Quiz"), "My_Quiz");
    assert_eq!(sanitize_filename("Quiz #1: Test!"), "Quiz_-1-_Test");
    assert_eq!(sanitize_filename("  test  "), "test");
}
