//! The in-memory assessment model: immutable value records produced by the
//! parser and consumed by the XML builder.

use vstd::prelude::*;
use crate::decimal::Decimal;

verus! {

/// A complete assessment.
pub struct Assessment {
    pub title: String,
    pub identifier: String,
    pub description: Option<String>,
    /// Time limit in minutes.
    pub time_limit: Option<u32>,
    pub questions: Vec<Question>,
    pub metadata: AssessmentMetadata,
}

pub struct AssessmentMetadata {
    pub author: Option<String>,
    pub course: Option<String>,
    pub shuffle_questions: bool,
    pub shuffle_answers: bool,
    pub show_feedback: bool,
    pub allow_review: bool,
}

/// An individual question.
pub struct Question {
    pub id: String,
    pub title: String,
    pub text: String,
    pub question_type: QuestionType,
    pub points: Decimal,
    pub feedback: Option<Feedback>,
    pub solution: Option<String>,
}

pub enum QuestionType {
    MultipleChoice { choices: Vec<Choice>, shuffle: bool },
    TrueFalse { correct_answer: bool },
    MultipleAnswer { choices: Vec<Choice>, partial_credit: bool },
    ShortAnswer { answers: Vec<AcceptableAnswer>, case_sensitive: bool },
    Numerical { answer: Decimal, margin: Option<Decimal>, min: Option<Decimal>, max: Option<Decimal> },
    Essay { expected_length: Option<usize>, rich_text: bool },
    FileUpload { allowed_extensions: Vec<String> },
}

pub struct Choice {
    pub id: String,
    pub text: String,
    pub correct: bool,
    pub feedback: Option<String>,
    /// For partial credit.
    pub weight: Option<Decimal>,
}

pub struct AcceptableAnswer {
    pub text: String,
    /// Multiplies the question's points; one for a fully correct answer.
    pub weight: Decimal,
}

pub struct Feedback {
    pub correct: Option<String>,
    pub incorrect: Option<String>,
    pub general: Option<String>,
}

pub enum AnswerType {
    Single(String),
    Multiple(Vec<String>),
    Range(Decimal, Decimal),
    Pattern(String),
}

/// The characters of a rendered UUID: lowercase hexadecimal digits and
/// hyphens, thirty-six in all.
pub open spec fn is_uuid_text(s: Seq<char>) -> bool {
    &&& s.len() == 36
    &&& forall|i: int|
        0 <= i < s.len() ==> (('0' <= #[trigger] s[i] && s[i] <= '9') || ('a' <= s[i] && s[i]
            <= 'f') || s[i] == '-')
}

/// An identifier made of the given prefix followed by a rendered UUID.
pub open spec fn is_generated_id(id: Seq<char>, prefix: Seq<char>) -> bool {
    &&& id.len() == prefix.len() + 36
    &&& id.take(prefix.len() as int) == prefix
    &&& is_uuid_text(id.skip(prefix.len() as int))
}

/// Some pair of generated `choice_` identifiers; a witness where a
/// question type synthesizes none.
pub open spec fn spec_fresh_pair() -> (Seq<char>, Seq<char>) {
    (
        "choice_000000000000000000000000000000000000"@,
        "choice_000000000000000000000000000000000000"@,
    )
}

/// The witness pair consists of generated identifiers.
pub proof fn lemma_fresh_pair()
    ensures
        is_generated_id(spec_fresh_pair().0, "choice_"@),
        is_generated_id(spec_fresh_pair().1, "choice_"@),
{
    reveal_strlit("choice_000000000000000000000000000000000000");
    reveal_strlit("choice_");
    assert(spec_fresh_pair().0.take(7) =~= "choice_"@);
    assert(is_uuid_text(spec_fresh_pair().0.skip(7)));
}

/// Relies on `uuid::Uuid::new_v4` and its `Display` implementation: a fresh
/// random version-4 UUID rendered in the hyphenated lowercase-hexadecimal
/// form, which is always thirty-six characters long. The value itself is
/// random, so nothing more is promised of it.
#[verifier::external_body]
fn fresh_uuid() -> (r: String)
    ensures
        is_uuid_text(r@),
{
    uuid::Uuid::new_v4().to_string()
}

/// A fresh identifier `prefix` + UUID, such as `question_<uuid>`.
pub fn generated_id(prefix: &str) -> (r: String)
    ensures
        is_generated_id(r@, prefix@),
{
    let u = fresh_uuid();
    let mut r = prefix.to_owned();
    r.append(u.as_str());
    proof {
        assert(r@.take(prefix@.len() as int) =~= prefix@);
        assert(r@.skip(prefix@.len() as int) =~= u@);
    }
    r
}

impl AssessmentMetadata {
    /// The default metadata: no author or course, all flags off.
    pub fn new() -> (r: AssessmentMetadata)
        ensures
            r.author is None,
            r.course is None,
            !r.shuffle_questions,
            !r.shuffle_answers,
            !r.show_feedback,
            !r.allow_review,
    {
        AssessmentMetadata {
            author: None,
            course: None,
            shuffle_questions: false,
            shuffle_answers: false,
            show_feedback: false,
            allow_review: false,
        }
    }
}

impl Assessment {
    /// An empty assessment with the given title, a generated
    /// `assessment_<uuid>` identifier and default metadata.
    pub fn new(title: &str) -> (r: Assessment)
        ensures
            r.title@ == title@,
            is_generated_id(r.identifier@, "assessment_"@),
            r.description is None,
            r.time_limit is None,
            r.questions@.len() == 0,
            r.metadata.author is None,
            r.metadata.course is None,
            !r.metadata.shuffle_questions,
            !r.metadata.shuffle_answers,
            !r.metadata.show_feedback,
            !r.metadata.allow_review,
    {
        Assessment {
            title: title.to_owned(),
            identifier: generated_id("assessment_"),
            description: None,
            time_limit: None,
            questions: Vec::new(),
            metadata: AssessmentMetadata::new(),
        }
    }
}

impl Question {
    /// A question with the given text and type, a generated
    /// `question_<uuid>` identifier, one point and no feedback or solution.
    pub fn new(text: &str, question_type: QuestionType) -> (r: Question)
        ensures
            is_generated_id(r.id@, "question_"@),
            r.title@.len() == 0,
            r.text@ == text@,
            r.question_type == question_type,
            r.points == (Decimal { negative: false, mantissa: 1u64, scale: 0u32 }),
            r.feedback is None,
            r.solution is None,
    {
        Question {
            id: generated_id("question_"),
            title: String::new(),
            text: text.to_owned(),
            question_type,
            points: Decimal::one(),
            feedback: None,
            solution: None,
        }
    }
}

impl Choice {
    /// A choice with the given text and correctness and a generated
    /// `choice_<uuid>` identifier.
    pub fn new(text: &str, correct: bool) -> (r: Choice)
        ensures
            is_generated_id(r.id@, "choice_"@),
            r.text@ == text@,
            r.correct == correct,
            r.feedback is None,
            r.weight is None,
    {
        Choice { id: generated_id("choice_"), text: text.to_owned(), correct, feedback: None, weight: None }
    }
}

impl AcceptableAnswer {
    /// An acceptable answer with the given text and full weight.
    pub fn new(text: &str) -> (r: AcceptableAnswer)
        ensures
            r.text@ == text@,
            r.weight == (Decimal { negative: false, mantissa: 1u64, scale: 0u32 }),
    {
        AcceptableAnswer { text: text.to_owned(), weight: Decimal::one() }
    }
}

} // verus!
