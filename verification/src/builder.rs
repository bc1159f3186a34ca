//! The XML builder: turns an [`Assessment`] into the QTI 1.2
//! `questestinterop` element tree, one `item` per question, with
//! presentation markup and response-processing conditions per question
//! type.

use vstd::prelude::*;
use crate::decimal::{Decimal, spec_decimal_str, spec_halved, spec_times};
use crate::error::QtiError;
use crate::text::spec_u64_digits;
use crate::text::u64_to_string;
use crate::types::{
    AcceptableAnswer, Assessment, Choice, Question, QuestionType, is_generated_id,
    generated_id,
};
use crate::xml::{SpecElement, SpecNode, XmlElement};

verus! {

/// Builder for QTI XML element trees.
pub struct QtiBuilder {
    /// Whether to include Canvas-specific extension blocks.
    pub canvas_extensions: bool,
}

/// A `material` element holding one `mattext` with the given text.
pub open spec fn spec_material(text: Seq<char>) -> SpecElement {
    SpecElement {
        name: "material"@,
        attrs: Seq::empty(),
        children: seq![
            SpecNode::Element(
                SpecElement {
                    name: "mattext"@,
                    attrs: seq![("texttype"@, "text/html"@)],
                    children: seq![SpecNode::Text(text)],
                },
            ),
        ],
    }
}

/// A `qtimetadatafield` with a label and an entry.
pub open spec fn spec_metadata_field(label: Seq<char>, entry: Seq<char>) -> SpecElement {
    SpecElement {
        name: "qtimetadatafield"@,
        attrs: Seq::empty(),
        children: seq![
            SpecNode::Element(
                SpecElement {
                    name: "fieldlabel"@,
                    attrs: Seq::empty(),
                    children: seq![SpecNode::Text(label)],
                },
            ),
            SpecNode::Element(
                SpecElement {
                    name: "fieldentry"@,
                    attrs: Seq::empty(),
                    children: seq![SpecNode::Text(entry)],
                },
            ),
        ],
    }
}

/// The assessment-level `qtimetadata` block: time limit and shuffle flags,
/// where set.
pub open spec fn spec_qtimetadata(a: Assessment) -> SpecElement {
    let c0 = Seq::<SpecNode>::empty();
    let c1 = match a.time_limit {
        Some(t) => c0.push(
            SpecNode::Element(spec_metadata_field("time_limit"@, spec_u64_digits(t as int))),
        ),
        None => c0,
    };
    let c2 = if a.metadata.shuffle_questions {
        c1.push(SpecNode::Element(spec_metadata_field("shuffle_questions"@, "true"@)))
    } else {
        c1
    };
    let c3 = if a.metadata.shuffle_answers {
        c2.push(SpecNode::Element(spec_metadata_field("shuffle_answers"@, "true"@)))
    } else {
        c2
    };
    SpecElement { name: "qtimetadata"@, attrs: Seq::empty(), children: c3 }
}

/// The Canvas question-type label of a question.
pub open spec fn spec_qtype_label(qt: QuestionType) -> Seq<char> {
    match qt {
        QuestionType::MultipleChoice { .. } => "multiple_choice_question"@,
        QuestionType::TrueFalse { .. } => "true_false_question"@,
        QuestionType::MultipleAnswer { .. } => "multiple_answers_question"@,
        QuestionType::ShortAnswer { .. } => "short_answer_question"@,
        QuestionType::Numerical { .. } => "numerical_question"@,
        QuestionType::Essay { .. } => "essay_question"@,
        QuestionType::FileUpload { .. } => "file_upload_question"@,
    }
}

/// The item-level metadata block: question type and points.
pub open spec fn spec_itemmetadata(q: Question) -> SpecElement {
    SpecElement {
        name: "itemmetadata"@,
        attrs: Seq::empty(),
        children: seq![
            SpecNode::Element(spec_metadata_field("question_type"@, spec_qtype_label(q.question_type))),
            SpecNode::Element(spec_metadata_field("points_possible"@, spec_decimal_str(q.points))),
        ],
    }
}

/// The response identifier of a question: `response_` followed by its id.
pub open spec fn spec_response_ident(qid: Seq<char>) -> Seq<char> {
    "response_"@ + qid
}

/// The identifier and text of each choice, in order.
pub open spec fn spec_choice_entries(cs: Seq<Choice>) -> Seq<(Seq<char>, Seq<char>)> {
    Seq::new(cs.len(), |i: int| (cs[i].id@, cs[i].text@))
}

/// A `response_label` for one choice.
pub open spec fn spec_response_label(id: Seq<char>, text: Seq<char>) -> SpecElement {
    SpecElement {
        name: "response_label"@,
        attrs: seq![("ident"@, id)],
        children: seq![SpecNode::Element(spec_material(text))],
    }
}

/// The `render_choice` block listing every choice.
pub open spec fn spec_render_choice(entries: Seq<(Seq<char>, Seq<char>)>, shuffle: bool) -> SpecElement {
    SpecElement {
        name: "render_choice"@,
        attrs: if shuffle {
            seq![("shuffle"@, "Yes"@)]
        } else {
            Seq::empty()
        },
        children: Seq::new(
            entries.len(),
            |i: int| SpecNode::Element(spec_response_label(entries[i].0, entries[i].1)),
        ),
    }
}

/// The cardinality of a question's response.
pub open spec fn spec_cardinality(qt: QuestionType) -> Seq<char> {
    match qt {
        QuestionType::MultipleAnswer { .. } => "Multiple"@,
        _ => "Single"@,
    }
}

/// A `response_lid` with its `render_choice`.
pub open spec fn spec_response_lid(
    qid: Seq<char>,
    card: Seq<char>,
    entries: Seq<(Seq<char>, Seq<char>)>,
    shuffle: bool,
) -> SpecElement {
    SpecElement {
        name: "response_lid"@,
        attrs: seq![("ident"@, spec_response_ident(qid)), ("rcardinality"@, card)],
        children: seq![SpecNode::Element(spec_render_choice(entries, shuffle))],
    }
}

/// The `render_fib` sizing of text responses.
pub open spec fn spec_render_fib_attrs(qt: QuestionType) -> Seq<(Seq<char>, Seq<char>)> {
    match qt {
        QuestionType::ShortAnswer { .. } => seq![("columns"@, "40"@)],
        QuestionType::Essay { .. } => seq![("rows"@, "10"@), ("columns"@, "80"@)],
        _ => Seq::empty(),
    }
}

/// A `response_str` with its `render_fib`.
pub open spec fn spec_response_str(qid: Seq<char>, qt: QuestionType) -> SpecElement {
    SpecElement {
        name: "response_str"@,
        attrs: seq![("ident"@, spec_response_ident(qid)), ("rcardinality"@, "Single"@)],
        children: seq![
            SpecNode::Element(
                SpecElement {
                    name: "render_fib"@,
                    attrs: spec_render_fib_attrs(qt),
                    children: Seq::empty(),
                },
            ),
        ],
    }
}

/// A `response_num` with its `render_fib`.
pub open spec fn spec_response_num(qid: Seq<char>) -> SpecElement {
    SpecElement {
        name: "response_num"@,
        attrs: seq![
            ("ident"@, spec_response_ident(qid)),
            ("rcardinality"@, "Single"@),
            ("numtype"@, "Decimal"@),
        ],
        children: seq![
            SpecNode::Element(
                SpecElement {
                    name: "render_fib"@,
                    attrs: Seq::empty(),
                    children: Seq::empty(),
                },
            ),
        ],
    }
}

/// The `presentation` of a question: its text, then one response element
/// chosen by question type. True/false questions render as a two-choice
/// list whose synthesized choice identifiers are `tfa` and `tfb`.
pub open spec fn spec_presentation_response(q: Question, tfa: Seq<char>, tfb: Seq<char>) -> SpecElement {
    match q.question_type {
        QuestionType::MultipleChoice { choices, shuffle } => spec_response_lid(
            q.id@,
            spec_cardinality(q.question_type),
            spec_choice_entries(choices@),
            shuffle,
        ),
        QuestionType::MultipleAnswer { choices, .. } => spec_response_lid(
            q.id@,
            spec_cardinality(q.question_type),
            spec_choice_entries(choices@),
            false,
        ),
        QuestionType::TrueFalse { .. } => spec_response_lid(
            q.id@,
            spec_cardinality(q.question_type),
            seq![(tfa, "True"@), (tfb, "False"@)],
            false,
        ),
        QuestionType::ShortAnswer { .. } => spec_response_str(q.id@, q.question_type),
        QuestionType::Numerical { .. } => spec_response_num(q.id@),
        QuestionType::Essay { .. } => spec_response_str(q.id@, q.question_type),
        QuestionType::FileUpload { .. } => spec_response_str(q.id@, q.question_type),
    }
}

/// The `presentation` of a question: its text, then one response element
/// chosen by question type. True/false questions render as a two-choice
/// list whose synthesized choice identifiers are `tfa` and `tfb`.
pub open spec fn spec_presentation(q: Question, tfa: Seq<char>, tfb: Seq<char>) -> SpecElement {
    SpecElement {
        name: "presentation"@,
        attrs: Seq::empty(),
        children: seq![
            SpecNode::Element(spec_material(q.text@)),
            SpecNode::Element(spec_presentation_response(q, tfa, tfb)),
        ],
    }
}

/// The `outcomes` block declaring the SCORE variable from zero to the
/// question's points.
pub open spec fn spec_outcomes(points: Decimal) -> SpecElement {
    SpecElement {
        name: "outcomes"@,
        attrs: Seq::empty(),
        children: seq![
            SpecNode::Element(
                SpecElement {
                    name: "decvar"@,
                    attrs: seq![
                        ("maxvalue"@, spec_decimal_str(points)),
                        ("minvalue"@, "0"@),
                        ("varname"@, "SCORE"@),
                        ("vartype"@, "Decimal"@),
                    ],
                    children: Seq::empty(),
                },
            ),
        ],
    }
}

/// A `conditionvar` holding one `varequal` against the question's response.
pub open spec fn spec_conditionvar(
    qid: Seq<char>,
    extra: Seq<(Seq<char>, Seq<char>)>,
    value: Seq<char>,
) -> SpecElement {
    SpecElement {
        name: "conditionvar"@,
        attrs: Seq::empty(),
        children: seq![
            SpecNode::Element(
                SpecElement {
                    name: "varequal"@,
                    attrs: seq![("respident"@, spec_response_ident(qid))] + extra,
                    children: seq![SpecNode::Text(value)],
                },
            ),
        ],
    }
}

/// A `setvar` scoring action.
pub open spec fn spec_setvar(action: Seq<char>, score: Seq<char>) -> SpecElement {
    SpecElement {
        name: "setvar"@,
        attrs: seq![("action"@, action), ("varname"@, "SCORE"@)],
        children: seq![SpecNode::Text(score)],
    }
}

/// The respcondition of one single-cardinality choice: full points when the
/// correct choice is picked, zero otherwise, evaluation stopping at the
/// first match; the correct choice also displays feedback when the
/// question has any.
pub open spec fn spec_condition_mc(
    qid: Seq<char>,
    cid: Seq<char>,
    correct: bool,
    points: Decimal,
    has_feedback: bool,
) -> SpecElement {
    let score = if correct {
        spec_decimal_str(points)
    } else {
        "0"@
    };
    let base = seq![
        SpecNode::Element(spec_conditionvar(qid, Seq::empty(), cid)),
        SpecNode::Element(spec_setvar("Set"@, score)),
    ];
    SpecElement {
        name: "respcondition"@,
        attrs: seq![("continue"@, "No"@)],
        children: if correct && has_feedback {
            base.push(
                SpecNode::Element(
                    SpecElement {
                        name: "displayfeedback"@,
                        attrs: seq![("linkrefid"@, "correct"@)],
                        children: Seq::empty(),
                    },
                ),
            )
        } else {
            base
        },
    }
}

/// The respcondition of one multiple-answer choice: conditions accumulate,
/// a correct choice adds the points — halved under partial credit — and an
/// incorrect one adds zero.
pub open spec fn spec_condition_ma(qid: Seq<char>, c: Choice, points: Decimal, partial_credit: bool) -> SpecElement {
    let score = if partial_credit && c.correct {
        spec_decimal_str(spec_halved(points))
    } else if c.correct {
        spec_decimal_str(points)
    } else {
        "0"@
    };
    SpecElement {
        name: "respcondition"@,
        attrs: seq![("continue"@, "Yes"@)],
        children: seq![
            SpecNode::Element(spec_conditionvar(qid, Seq::empty(), c.id@)),
            SpecNode::Element(spec_setvar("Add"@, score)),
        ],
    }
}

/// The respcondition of one acceptable short answer: case-insensitive text
/// match scoring the points weighted by the answer's weight.
pub open spec fn spec_condition_sa(qid: Seq<char>, ans: AcceptableAnswer, points: Decimal) -> SpecElement {
    SpecElement {
        name: "respcondition"@,
        attrs: Seq::empty(),
        children: seq![
            SpecNode::Element(spec_conditionvar(qid, seq![("case"@, "No"@)], ans.text@)),
            SpecNode::Element(spec_setvar("Set"@, spec_decimal_str(spec_times(points, ans.weight)))),
        ],
    }
}

/// The default respcondition of question types without automatic scoring:
/// an empty condition scoring zero.
pub open spec fn spec_condition_default(qid: Seq<char>) -> SpecElement {
    SpecElement {
        name: "respcondition"@,
        attrs: Seq::empty(),
        children: seq![
            SpecNode::Element(
                SpecElement { name: "conditionvar"@, attrs: Seq::empty(), children: Seq::empty() },
            ),
            SpecNode::Element(spec_setvar("Set"@, "0"@)),
        ],
    }
}

/// The respcondition list of a question, by type. A true/false question
/// scores like a two-choice multiple choice over its synthesized choices
/// `tfa` (True) and `tfb` (False), the one matching its answer earning the
/// points.
pub open spec fn spec_conditions(q: Question, tfa: Seq<char>, tfb: Seq<char>) -> Seq<SpecNode> {
    match q.question_type {
        QuestionType::MultipleChoice { choices, .. } => Seq::new(
            choices@.len(),
            |i: int| SpecNode::Element(
                spec_condition_mc(
                    q.id@,
                    choices@[i].id@,
                    choices@[i].correct,
                    q.points,
                    q.feedback is Some,
                ),
            ),
        ),
        QuestionType::TrueFalse { correct_answer } => seq![
            SpecNode::Element(
                spec_condition_mc(q.id@, tfa, correct_answer, q.points, q.feedback is Some),
            ),
            SpecNode::Element(
                spec_condition_mc(q.id@, tfb, !correct_answer, q.points, q.feedback is Some),
            ),
        ],
        QuestionType::MultipleAnswer { choices, partial_credit } => Seq::new(
            choices@.len(),
            |i: int| SpecNode::Element(spec_condition_ma(q.id@, choices@[i], q.points, partial_credit)),
        ),
        QuestionType::ShortAnswer { answers, .. } => Seq::new(
            answers@.len(),
            |i: int| SpecNode::Element(spec_condition_sa(q.id@, answers@[i], q.points)),
        ),
        _ => seq![SpecNode::Element(spec_condition_default(q.id@))],
    }
}

/// The `resprocessing` of a question: outcomes, then its conditions.
pub open spec fn spec_resprocessing(q: Question, tfa: Seq<char>, tfb: Seq<char>) -> SpecElement {
    SpecElement {
        name: "resprocessing"@,
        attrs: Seq::empty(),
        children: seq![SpecNode::Element(spec_outcomes(q.points))] + spec_conditions(q, tfa, tfb),
    }
}

/// An `itemfeedback` block.
pub open spec fn spec_itemfeedback(ident: Seq<char>, text: Seq<char>) -> SpecElement {
    SpecElement {
        name: "itemfeedback"@,
        attrs: seq![("ident"@, ident)],
        children: seq![SpecNode::Element(spec_material(text))],
    }
}

/// The title of an item: the question's title, or `Question ` followed by a
/// short slice of its identifier.
pub open spec fn spec_item_title(q: Question) -> Seq<char> {
    if q.title@.len() > 0 {
        q.title@
    } else if q.id@.len() >= 15 {
        "Question "@ + q.id@.subrange(9, 15)
    } else {
        "Question "@ + q.id@
    }
}

/// The feedback children of an item: `correct` and `incorrect` blocks where
/// the question carries them.
pub open spec fn spec_item_feedback_children(q: Question) -> Seq<SpecNode> {
    match q.feedback {
        Some(f) => {
            let c0 = Seq::<SpecNode>::empty();
            let c1 = match f.correct {
                Some(t) => c0.push(SpecNode::Element(spec_itemfeedback("correct"@, t@))),
                None => c0,
            };
            match f.incorrect {
                Some(t) => c1.push(SpecNode::Element(spec_itemfeedback("incorrect"@, t@))),
                None => c1,
            }
        },
        None => Seq::empty(),
    }
}

/// The `item` of one question.
pub open spec fn spec_item(q: Question, ext: bool, tfa: Seq<char>, tfb: Seq<char>) -> SpecElement {
    let meta = if ext {
        seq![SpecNode::Element(spec_itemmetadata(q))]
    } else {
        Seq::<SpecNode>::empty()
    };
    SpecElement {
        name: "item"@,
        attrs: seq![("ident"@, q.id@), ("title"@, spec_item_title(q))],
        children: meta + seq![
            SpecNode::Element(spec_presentation(q, tfa, tfb)),
            SpecNode::Element(spec_resprocessing(q, tfa, tfb)),
        ] + spec_item_feedback_children(q),
    }
}

/// The items of a section, with the synthesized true/false choice
/// identifiers of each question.
pub open spec fn spec_items(qs: Seq<Question>, ext: bool, tf: Seq<(Seq<char>, Seq<char>)>) -> Seq<SpecNode> {
    Seq::new(qs.len(), |i: int| SpecNode::Element(spec_item(qs[i], ext, tf[i].0, tf[i].1)))
}

/// The single `section` holding every item.
pub open spec fn spec_section(
    a: Assessment,
    ext: bool,
    sid: Seq<char>,
    tf: Seq<(Seq<char>, Seq<char>)>,
) -> SpecElement {
    SpecElement {
        name: "section"@,
        attrs: seq![("ident"@, sid), ("title"@, "Main Section"@)],
        children: spec_items(a.questions@, ext, tf),
    }
}

/// The `assessment` element.
pub open spec fn spec_assessment_elem(
    a: Assessment,
    ext: bool,
    sid: Seq<char>,
    tf: Seq<(Seq<char>, Seq<char>)>,
) -> SpecElement {
    let meta = if ext {
        seq![SpecNode::Element(spec_qtimetadata(a))]
    } else {
        Seq::<SpecNode>::empty()
    };
    SpecElement {
        name: "assessment"@,
        attrs: seq![("ident"@, a.identifier@), ("title"@, a.title@)],
        children: meta + seq![SpecNode::Element(spec_section(a, ext, sid, tf))],
    }
}

/// The whole `questestinterop` document of an assessment: the root with
/// its fixed namespace attributes, holding the `assessment` element.
pub open spec fn spec_questestinterop(
    a: Assessment,
    ext: bool,
    sid: Seq<char>,
    tf: Seq<(Seq<char>, Seq<char>)>,
) -> SpecElement {
    SpecElement {
        name: "questestinterop"@,
        attrs: seq![
            ("xmlns"@, "http://www.imsglobal.org/xsd/ims_qtiasiv1p2"@),
            ("xmlns:xsi"@, "http://www.w3.org/2001/XMLSchema-instance"@),
            (
                "xsi:schemaLocation"@,
                "http://www.imsglobal.org/xsd/ims_qtiasiv1p2 http://www.imsglobal.org/xsd/ims_qtiasiv1p2p1.xsd"@,
            ),
        ],
        children: seq![SpecNode::Element(spec_assessment_elem(a, ext, sid, tf))],
    }
}

/// The synthesized choice pair of a true/false question, shared by its
/// presentation and its response processing; any other question carries
/// none.
pub open spec fn tf_pair_matches(qt: QuestionType, tf: Option<Vec<Choice>>) -> bool {
    match qt {
        QuestionType::TrueFalse { correct_answer } => tf matches Some(v) && v@.len() == 2
            && is_generated_id(v@[0].id@, "choice_"@) && v@[0].text@ == "True"@ && v@[0].correct
            == correct_answer && v@[0].feedback is None && v@[0].weight is None
            && is_generated_id(v@[1].id@, "choice_"@) && v@[1].text@ == "False"@ && v@[1].correct
            == !correct_answer && v@[1].feedback is None && v@[1].weight is None,
        _ => tf is None,
    }
}

/// The identifier of the synthesized True choice, or a fixed placeholder.
pub open spec fn tf_first(tf: Option<Vec<Choice>>) -> Seq<char> {
    match tf {
        Some(v) => v@[0].id@,
        None => crate::types::spec_fresh_pair().0,
    }
}

/// The identifier of the synthesized False choice, or a fixed placeholder.
pub open spec fn tf_second(tf: Option<Vec<Choice>>) -> Seq<char> {
    match tf {
        Some(v) => v@[1].id@,
        None => crate::types::spec_fresh_pair().1,
    }
}

/// A built document: the root tree is `spec_questestinterop` of the
/// assessment for some generated section identifier and synthesized
/// true/false choice identifiers.
pub open spec fn builds_questestinterop(a: Assessment, ext: bool, r: SpecElement) -> bool {
    exists|sid: Seq<char>, tf: Seq<(Seq<char>, Seq<char>)>|
        is_generated_id(sid, "section_"@) && tf.len() == a.questions@.len() && (forall|i: int|
            0 <= i < tf.len() ==> is_generated_id((#[trigger] tf[i]).0, "choice_"@)
                && is_generated_id(tf[i].1, "choice_"@)) && r =~~= #[trigger] spec_questestinterop(
            a,
            ext,
            sid,
            tf,
        )
}

fn response_ident(qid: &String) -> (r: String)
    ensures
        r@ == spec_response_ident(qid@),
{
    let mut r = String::from_str("response_");
    proof {
        reveal_strlit("response_");
    }
    r.append(qid.as_str());
    r
}

impl QtiBuilder {
    pub fn new() -> (r: QtiBuilder)
        ensures
            !r.canvas_extensions,
    {
        QtiBuilder { canvas_extensions: false }
    }

    pub fn with_canvas_extensions(self) -> (r: QtiBuilder)
        ensures
            r.canvas_extensions,
    {
        QtiBuilder { canvas_extensions: true }
    }

    fn build_material(&self, text: &str) -> (r: XmlElement)
        ensures
            r@ =~~= spec_material(text@),
    {
        let mut mattext = XmlElement::new("mattext");
        mattext.add_attribute("texttype", "text/html");
        mattext.add_text(text);
        let mut material = XmlElement::new("material");
        material.add_child(mattext);
        material
    }

    fn build_qtimetadatafield(&self, label: &str, entry: &str) -> (r: XmlElement)
        ensures
            r@ =~~= spec_metadata_field(label@, entry@),
    {
        let mut label_elem = XmlElement::new("fieldlabel");
        label_elem.add_text(label);
        let mut entry_elem = XmlElement::new("fieldentry");
        entry_elem.add_text(entry);
        proof {
            assert(label_elem@ =~~= SpecElement {
                name: "fieldlabel"@,
                attrs: Seq::empty(),
                children: seq![SpecNode::Text(label@)],
            });
            assert(entry_elem@ =~~= SpecElement {
                name: "fieldentry"@,
                attrs: Seq::empty(),
                children: seq![SpecNode::Text(entry@)],
            });
        }
        let mut field = XmlElement::new("qtimetadatafield");
        field.add_child(label_elem);
        field.add_child(entry_elem);
        proof {
            assert(field@.children =~~= spec_metadata_field(label@, entry@).children);
            assert(field@ =~~= spec_metadata_field(label@, entry@));
        }
        field
    }

    fn build_qtimetadata(&self, assessment: &Assessment) -> (r: XmlElement)
        ensures
            r@ =~~= spec_qtimetadata(*assessment),
    {
        let mut metadata = XmlElement::new("qtimetadata");
        if let Some(time_limit) = assessment.time_limit {
            let entry = u64_to_string(time_limit as u64);
            let field = self.build_qtimetadatafield("time_limit", entry.as_str());
            metadata.add_child(field);
        }
        if assessment.metadata.shuffle_questions {
            let field = self.build_qtimetadatafield("shuffle_questions", "true");
            metadata.add_child(field);
        }
        if assessment.metadata.shuffle_answers {
            let field = self.build_qtimetadatafield("shuffle_answers", "true");
            metadata.add_child(field);
        }
        proof {
            assert(metadata@.children =~~= spec_qtimetadata(*assessment).children);
            assert(metadata@ =~~= spec_qtimetadata(*assessment));
        }
        metadata
    }

    fn build_itemmetadata(&self, question: &Question) -> (r: XmlElement)
        ensures
            r@ =~~= spec_itemmetadata(*question),
    {
        let qtype: &str = match &question.question_type {
            QuestionType::MultipleChoice { .. } => "multiple_choice_question",
            QuestionType::TrueFalse { .. } => "true_false_question",
            QuestionType::MultipleAnswer { .. } => "multiple_answers_question",
            QuestionType::ShortAnswer { .. } => "short_answer_question",
            QuestionType::Numerical { .. } => "numerical_question",
            QuestionType::Essay { .. } => "essay_question",
            QuestionType::FileUpload { .. } => "file_upload_question",
        };
        let type_field = self.build_qtimetadatafield("question_type", qtype);
        let points_text = question.points.to_text();
        let points_field = self.build_qtimetadatafield("points_possible", points_text.as_str());
        let mut metadata = XmlElement::new("itemmetadata");
        metadata.add_child(type_field);
        metadata.add_child(points_field);
        proof {
            assert(metadata@.children =~~= spec_itemmetadata(*question).children);
            assert(metadata@ =~~= spec_itemmetadata(*question));
        }
        metadata
    }

    fn build_response_lid(&self, question: &Question, choices: &Vec<Choice>, shuffle: bool) -> (r:
        XmlElement)
        ensures
            r@ =~~= spec_response_lid(
                question.id@,
                spec_cardinality(question.question_type),
                spec_choice_entries(choices@),
                shuffle,
            ),
    {
        let mut response = XmlElement::new("response_lid");
        let ri = response_ident(&question.id);
        response.add_attribute("ident", ri.as_str());
        let rcardinality: &str = match &question.question_type {
            QuestionType::MultipleChoice { .. } | QuestionType::TrueFalse { .. } => "Single",
            QuestionType::MultipleAnswer { .. } => "Multiple",
            _ => "Single",
        };
        response.add_attribute("rcardinality", rcardinality);
        let mut render = XmlElement::new("render_choice");
        if shuffle {
            render.add_attribute("shuffle", "Yes");
        }
        let ghost entries = spec_choice_entries(choices@);
        let n = choices.len();
        let mut i: usize = 0;
        while i < n
            invariant
                n == choices@.len(),
                0 <= i <= n,
                entries == spec_choice_entries(choices@),
                render@.name == "render_choice"@,
                render@.attrs == spec_render_choice(entries, shuffle).attrs,
                render@.children =~= Seq::new(
                    i as nat,
                    |j: int| SpecNode::Element(spec_response_label(entries[j].0, entries[j].1)),
                ),
            decreases n - i,
        {
            let choice = &choices[i];
            let mut label = XmlElement::new("response_label");
            label.add_attribute("ident", choice.id.as_str());
            let material = self.build_material(choice.text.as_str());
            label.add_child(material);
            proof {
                assert(label@ =~~= spec_response_label(entries[i as int].0, entries[i as int].1));
            }
            render.add_child(label);
            proof {
                assert(render@.children =~= Seq::new(
                    (i + 1) as nat,
                    |j: int| SpecNode::Element(spec_response_label(entries[j].0, entries[j].1)),
                ));
            }
            i = i + 1;
        }
        proof {
            assert(render@ =~~= spec_render_choice(entries, shuffle));
        }
        response.add_child(render);
        proof {
            assert(response@ =~~= spec_response_lid(
                question.id@,
                spec_cardinality(question.question_type),
                entries,
                shuffle,
            ));
        }
        response
    }

    fn build_response_str(&self, question: &Question) -> (r: XmlElement)
        ensures
            r@ =~~= spec_response_str(question.id@, question.question_type),
    {
        let mut response = XmlElement::new("response_str");
        let ri = response_ident(&question.id);
        response.add_attribute("ident", ri.as_str());
        response.add_attribute("rcardinality", "Single");
        let mut render = XmlElement::new("render_fib");
        match &question.question_type {
            QuestionType::ShortAnswer { .. } => {
                render.add_attribute("columns", "40");
            },
            QuestionType::Essay { .. } => {
                render.add_attribute("rows", "10");
                render.add_attribute("columns", "80");
            },
            _ => {},
        }
        proof {
            assert(render@.attrs =~~= spec_render_fib_attrs(question.question_type));
        }
        response.add_child(render);
        proof {
            assert(response@ =~~= spec_response_str(question.id@, question.question_type));
        }
        response
    }

    fn build_response_num(&self, question: &Question) -> (r: XmlElement)
        ensures
            r@ =~~= spec_response_num(question.id@),
    {
        let mut response = XmlElement::new("response_num");
        let ri = response_ident(&question.id);
        response.add_attribute("ident", ri.as_str());
        response.add_attribute("rcardinality", "Single");
        response.add_attribute("numtype", "Decimal");
        let render = XmlElement::new("render_fib");
        response.add_child(render);
        proof {
            assert(response@ =~~= spec_response_num(question.id@));
        }
        response
    }

    fn build_presentation(&self, question: &Question, tf: &Option<Vec<Choice>>) -> (r: XmlElement)
        requires
            tf_pair_matches(question.question_type, *tf),
        ensures
            r@ =~~= spec_presentation(*question, tf_first(*tf), tf_second(*tf)),
    {
        let mut presentation = XmlElement::new("presentation");
        let material = self.build_material(question.text.as_str());
        presentation.add_child(material);
        let ghost tfa_w = tf_first(*tf);
        let ghost tfb_w = tf_second(*tf);
        let response = match &question.question_type {
            QuestionType::MultipleChoice { choices, shuffle } => {
                let shuffle = *shuffle;
                let r = self.build_response_lid(question, choices, shuffle);
                proof {
                    assert(r@ =~~= spec_presentation_response(*question, tfa_w, tfb_w));
                }
                r
            },
            QuestionType::MultipleAnswer { choices, .. } => {
                let r = self.build_response_lid(question, choices, false);
                proof {
                    assert(r@ =~~= spec_presentation_response(*question, tfa_w, tfb_w));
                }
                r
            },
            QuestionType::TrueFalse { .. } => {
                match tf {
                    Some(tf_choices) => {
                        let r = self.build_response_lid(question, tf_choices, false);
                        proof {
                            assert(spec_choice_entries(tf_choices@) =~= seq![
                                (tfa_w, "True"@),
                                (tfb_w, "False"@),
                            ]);
                            assert(r@ =~~= spec_presentation_response(*question, tfa_w, tfb_w));
                        }
                        r
                    },
                    None => {
                        proof {
                            assert(false);
                        }
                        self.build_response_str(question)
                    },
                }
            },
            QuestionType::ShortAnswer { .. } => {
                let r = self.build_response_str(question);
                proof {
                    assert(r@ =~~= spec_presentation_response(*question, tfa_w, tfb_w));
                }
                r
            },
            QuestionType::Numerical { .. } => {
                let r = self.build_response_num(question);
                proof {
                    assert(r@ =~~= spec_presentation_response(*question, tfa_w, tfb_w));
                }
                r
            },
            QuestionType::Essay { .. } => {
                let r = self.build_response_str(question);
                proof {
                    assert(r@ =~~= spec_presentation_response(*question, tfa_w, tfb_w));
                }
                r
            },
            QuestionType::FileUpload { .. } => {
                let r = self.build_response_str(question);
                proof {
                    assert(r@ =~~= spec_presentation_response(*question, tfa_w, tfb_w));
                }
                r
            },
        };
        let ghost resp_view = response@;
        presentation.add_child(response);
        proof {
            assert(resp_view == spec_presentation_response(*question, tfa_w, tfb_w));
            assert(presentation@.children =~~= spec_presentation(*question, tfa_w, tfb_w).children);
            assert(presentation@ =~~= spec_presentation(*question, tfa_w, tfb_w));
        }
        presentation
    }

    /// Synthesizes the two-choice True/False pair of a true/false question;
    /// the choice matching the question's answer is the correct one.
    fn synthesized_tf(&self, question: &Question) -> (r: Option<Vec<Choice>>)
        ensures
            tf_pair_matches(question.question_type, r),
    {
        match &question.question_type {
            QuestionType::TrueFalse { correct_answer } => {
                let ca = *correct_answer;
                let mut v: Vec<Choice> = Vec::new();
                v.push(Choice::new("True", ca));
                v.push(Choice::new("False", !ca));
                Some(v)
            },
            _ => None,
        }
    }

    fn build_outcomes(&self, question: &Question) -> (r: XmlElement)
        ensures
            r@ =~~= spec_outcomes(question.points),
    {
        let mut decvar = XmlElement::new("decvar");
        let max_text = question.points.to_text();
        decvar.add_attribute("maxvalue", max_text.as_str());
        decvar.add_attribute("minvalue", "0");
        decvar.add_attribute("varname", "SCORE");
        decvar.add_attribute("vartype", "Decimal");
        let mut outcomes = XmlElement::new("outcomes");
        proof {
            assert(decvar@ =~~= spec_outcomes(question.points).children[0]->Element_0);
        }
        outcomes.add_child(decvar);
        proof {
            assert(outcomes@ =~~= spec_outcomes(question.points));
        }
        outcomes
    }

    fn build_conditionvar(&self, question: &Question, case_insensitive: bool, value: &str) -> (r:
        XmlElement)
        ensures
            case_insensitive ==> r@ =~~= spec_conditionvar(
                question.id@,
                seq![("case"@, "No"@)],
                value@,
            ),
            !case_insensitive ==> r@ =~~= spec_conditionvar(question.id@, Seq::empty(), value@),
    {
        let mut varequal = XmlElement::new("varequal");
        let ri = response_ident(&question.id);
        varequal.add_attribute("respident", ri.as_str());
        if case_insensitive {
            varequal.add_attribute("case", "No");
        }
        varequal.add_text(value);
        let mut condvar = XmlElement::new("conditionvar");
        proof {
            if case_insensitive {
                assert(varequal@ =~~= spec_conditionvar(
                    question.id@,
                    seq![("case"@, "No"@)],
                    value@,
                ).children[0]->Element_0);
            } else {
                assert(varequal@ =~~= spec_conditionvar(
                    question.id@,
                    Seq::empty(),
                    value@,
                ).children[0]->Element_0);
            }
        }
        condvar.add_child(varequal);
        proof {
            if case_insensitive {
                assert(condvar@ =~~= spec_conditionvar(question.id@, seq![("case"@, "No"@)], value@));
            } else {
                assert(condvar@ =~~= spec_conditionvar(question.id@, Seq::empty(), value@));
            }
        }
        condvar
    }

    fn build_setvar(&self, action: &str, score: &str) -> (r: XmlElement)
        ensures
            r@ =~~= spec_setvar(action@, score@),
    {
        let mut setvar = XmlElement::new("setvar");
        setvar.add_attribute("action", action);
        setvar.add_attribute("varname", "SCORE");
        setvar.add_text(score);
        proof {
            assert(setvar@ =~~= spec_setvar(action@, score@));
        }
        setvar
    }

    fn build_respcondition_mc(&self, question: &Question, choice: &Choice) -> (r: XmlElement)
        ensures
            r@ =~~= spec_condition_mc(
                question.id@,
                choice.id@,
                choice.correct,
                question.points,
                question.feedback is Some,
            ),
    {
        let mut condition = XmlElement::new("respcondition");
        condition.add_attribute("continue", "No");
        let condvar = self.build_conditionvar(question, false, choice.id.as_str());
        condition.add_child(condvar);
        let score_text = if choice.correct {
            question.points.to_text()
        } else {
            let z = String::from_str("0");
            proof {
                reveal_strlit("0");
            }
            z
        };
        let setvar = self.build_setvar("Set", score_text.as_str());
        condition.add_child(setvar);
        if choice.correct && question.feedback.is_some() {
            let mut display = XmlElement::new("displayfeedback");
            display.add_attribute("linkrefid", "correct");
            condition.add_child(display);
        }
        proof {
            assert(condition@.children =~~= spec_condition_mc(
                question.id@,
                choice.id@,
                choice.correct,
                question.points,
                question.feedback is Some,
            ).children);
            assert(condition@ =~~= spec_condition_mc(
                question.id@,
                choice.id@,
                choice.correct,
                question.points,
                question.feedback is Some,
            ));
        }
        condition
    }

    fn build_respcondition_ma(&self, question: &Question, choice: &Choice, partial_credit: bool) -> (r:
        XmlElement)
        ensures
            r@ =~~= spec_condition_ma(question.id@, *choice, question.points, partial_credit),
    {
        let mut condition = XmlElement::new("respcondition");
        condition.add_attribute("continue", "Yes");
        let condvar = self.build_conditionvar(question, false, choice.id.as_str());
        condition.add_child(condvar);
        let score_text = if partial_credit && choice.correct {
            question.points.halved().to_text()
        } else if choice.correct {
            question.points.to_text()
        } else {
            let z = String::from_str("0");
            proof {
                reveal_strlit("0");
            }
            z
        };
        let setvar = self.build_setvar("Add", score_text.as_str());
        condition.add_child(setvar);
        proof {
            assert(condition@.children =~~= spec_condition_ma(
                question.id@,
                *choice,
                question.points,
                partial_credit,
            ).children);
            assert(condition@ =~~= spec_condition_ma(
                question.id@,
                *choice,
                question.points,
                partial_credit,
            ));
        }
        condition
    }

    fn build_respcondition_sa(&self, question: &Question, answer: &AcceptableAnswer) -> (r:
        XmlElement)
        ensures
            r@ =~~= spec_condition_sa(question.id@, *answer, question.points),
    {
        let mut condition = XmlElement::new("respcondition");
        let condvar = self.build_conditionvar(question, true, answer.text.as_str());
        condition.add_child(condvar);
        let score = question.points.times(&answer.weight);
        let score_text = score.to_text();
        let setvar = self.build_setvar("Set", score_text.as_str());
        condition.add_child(setvar);
        proof {
            assert(condition@.children =~~= spec_condition_sa(
                question.id@,
                *answer,
                question.points,
            ).children);
            assert(condition@ =~~= spec_condition_sa(question.id@, *answer, question.points));
        }
        condition
    }

    fn build_respcondition_default(&self, question: &Question) -> (r: XmlElement)
        ensures
            r@ =~~= spec_condition_default(question.id@),
    {
        let mut condition = XmlElement::new("respcondition");
        let condvar = XmlElement::new("conditionvar");
        condition.add_child(condvar);
        let setvar = self.build_setvar("Set", "0");
        condition.add_child(setvar);
        proof {
            assert(condition@.children =~~= spec_condition_default(question.id@).children);
            assert(condition@ =~~= spec_condition_default(question.id@));
        }
        condition
    }

    fn build_resprocessing(&self, question: &Question, tf: &Option<Vec<Choice>>) -> (r: XmlElement)
        requires
            tf_pair_matches(question.question_type, *tf),
        ensures
            r@ =~~= spec_resprocessing(*question, tf_first(*tf), tf_second(*tf)),
    {
        let mut resprocessing = XmlElement::new("resprocessing");
        let outcomes = self.build_outcomes(question);
        resprocessing.add_child(outcomes);
        let ghost head = seq![SpecNode::Element(spec_outcomes(question.points))];
        match &question.question_type {
            QuestionType::MultipleChoice { choices, .. } => {
                let n = choices.len();
                let mut i: usize = 0;
                while i < n
                    invariant
                        n == choices@.len(),
                        0 <= i <= n,
                        question.question_type matches QuestionType::MultipleChoice { choices: cs, .. } && cs@ == choices@,
                        resprocessing@.name == "resprocessing"@,
                        resprocessing@.attrs == Seq::<(Seq<char>, Seq<char>)>::empty(),
                        resprocessing@.children =~= head + Seq::new(
                            i as nat,
                            |j: int| SpecNode::Element(
                                spec_condition_mc(
                                    question.id@,
                                    choices@[j].id@,
                                    choices@[j].correct,
                                    question.points,
                                    question.feedback is Some,
                                ),
                            ),
                        ),
                    decreases n - i,
                {
                    let condition = self.build_respcondition_mc(question, &choices[i]);
                    resprocessing.add_child(condition);
                    proof {
                        assert(resprocessing@.children =~= head + Seq::new(
                            (i + 1) as nat,
                            |j: int| SpecNode::Element(
                                spec_condition_mc(
                                    question.id@,
                                    choices@[j].id@,
                                    choices@[j].correct,
                                    question.points,
                                    question.feedback is Some,
                                ),
                            ),
                        ));
                    }
                    i = i + 1;
                }
            },
            QuestionType::MultipleAnswer { choices, partial_credit } => {
                let partial_credit = *partial_credit;
                let n = choices.len();
                let mut i: usize = 0;
                while i < n
                    invariant
                        n == choices@.len(),
                        0 <= i <= n,
                        question.question_type matches QuestionType::MultipleAnswer { choices: cs, partial_credit: pc } && cs@ == choices@ && pc == partial_credit,
                        resprocessing@.name == "resprocessing"@,
                        resprocessing@.attrs == Seq::<(Seq<char>, Seq<char>)>::empty(),
                        resprocessing@.children =~= head + Seq::new(
                            i as nat,
                            |j: int| SpecNode::Element(
                                spec_condition_ma(
                                    question.id@,
                                    choices@[j],
                                    question.points,
                                    partial_credit,
                                ),
                            ),
                        ),
                    decreases n - i,
                {
                    let condition = self.build_respcondition_ma(question, &choices[i], partial_credit);
                    resprocessing.add_child(condition);
                    proof {
                        assert(resprocessing@.children =~= head + Seq::new(
                            (i + 1) as nat,
                            |j: int| SpecNode::Element(
                                spec_condition_ma(
                                    question.id@,
                                    choices@[j],
                                    question.points,
                                    partial_credit,
                                ),
                            ),
                        ));
                    }
                    i = i + 1;
                }
            },
            QuestionType::ShortAnswer { answers, .. } => {
                let n = answers.len();
                let mut i: usize = 0;
                while i < n
                    invariant
                        n == answers@.len(),
                        0 <= i <= n,
                        question.question_type matches QuestionType::ShortAnswer { answers: an, .. } && an@ == answers@,
                        resprocessing@.name == "resprocessing"@,
                        resprocessing@.attrs == Seq::<(Seq<char>, Seq<char>)>::empty(),
                        resprocessing@.children =~= head + Seq::new(
                            i as nat,
                            |j: int| SpecNode::Element(
                                spec_condition_sa(question.id@, answers@[j], question.points),
                            ),
                        ),
                    decreases n - i,
                {
                    let condition = self.build_respcondition_sa(question, &answers[i]);
                    resprocessing.add_child(condition);
                    proof {
                        assert(resprocessing@.children =~= head + Seq::new(
                            (i + 1) as nat,
                            |j: int| SpecNode::Element(
                                spec_condition_sa(question.id@, answers@[j], question.points),
                            ),
                        ));
                    }
                    i = i + 1;
                }
            },
            QuestionType::TrueFalse { .. } => {
                match tf {
                    Some(tf_choices) => {
                        let first = self.build_respcondition_mc(question, &tf_choices[0]);
                        resprocessing.add_child(first);
                        let second = self.build_respcondition_mc(question, &tf_choices[1]);
                        resprocessing.add_child(second);
                    },
                    None => {
                        proof {
                            assert(false);
                        }
                    },
                }
            },
            _ => {
                let condition = self.build_respcondition_default(question);
                resprocessing.add_child(condition);
            },
        }
        proof {
            assert(resprocessing@.children =~~= spec_resprocessing(
                *question,
                tf_first(*tf),
                tf_second(*tf),
            ).children);
            assert(resprocessing@ =~~= spec_resprocessing(*question, tf_first(*tf), tf_second(*tf)));
        }
        resprocessing
    }

    fn build_itemfeedback(&self, ident: &str, text: &str) -> (r: XmlElement)
        ensures
            r@ =~~= spec_itemfeedback(ident@, text@),
    {
        let mut feedback = XmlElement::new("itemfeedback");
        feedback.add_attribute("ident", ident);
        let material = self.build_material(text);
        feedback.add_child(material);
        proof {
            assert(feedback@ =~~= spec_itemfeedback(ident@, text@));
        }
        feedback
    }

    fn build_item(&self, question: &Question) -> (r: XmlElement)
        ensures
            exists|tfa: Seq<char>, tfb: Seq<char>|
                is_generated_id(tfa, "choice_"@) && is_generated_id(tfb, "choice_"@) && r@ =~~= #[trigger] spec_item(
                    *question,
                    self.canvas_extensions,
                    tfa,
                    tfb,
                ),
    {
        let mut item = XmlElement::new("item");
        item.add_attribute("ident", question.id.as_str());
        let title: String = if question.title.as_str().unicode_len() > 0 {
            let t = question.title.as_str().to_owned();
            t
        } else {
            let mut t = String::from_str("Question ");
            proof {
                reveal_strlit("Question ");
            }
            let id_len = question.id.as_str().unicode_len();
            if id_len >= 15 {
                t.append(question.id.as_str().substring_char(9, 15));
            } else {
                t.append(question.id.as_str());
            }
            t
        };
        proof {
            assert(title@ == spec_item_title(*question));
        }
        item.add_attribute("title", title.as_str());
        if self.canvas_extensions {
            let metadata = self.build_itemmetadata(question);
            item.add_child(metadata);
        }
        let tf = self.synthesized_tf(question);
        let ghost tfa = tf_first(tf);
        let ghost tfb = tf_second(tf);
        let presentation = self.build_presentation(question, &tf);
        let ghost pres_view = presentation@;
        item.add_child(presentation);
        let resprocessing = self.build_resprocessing(question, &tf);
        let ghost resp_view = resprocessing@;
        item.add_child(resprocessing);
        if let Some(feedback) = &question.feedback {
            if let Some(correct_feedback) = &feedback.correct {
                let fb = self.build_itemfeedback("correct", correct_feedback.as_str());
                item.add_child(fb);
            }
            if let Some(incorrect_feedback) = &feedback.incorrect {
                let fb = self.build_itemfeedback("incorrect", incorrect_feedback.as_str());
                item.add_child(fb);
            }
        }
        proof {
            crate::types::lemma_fresh_pair();
            assert(is_generated_id(tfa, "choice_"@) && is_generated_id(tfb, "choice_"@));
            assert(pres_view == spec_presentation(*question, tfa, tfb));
            assert(resp_view == spec_resprocessing(*question, tfa, tfb));
            assert(item@.children =~~= spec_item(*question, self.canvas_extensions, tfa, tfb).children);
            assert(item@ =~~= spec_item(*question, self.canvas_extensions, tfa, tfb));
        }
        item
    }

    fn build_section(&self, assessment: &Assessment) -> (r: XmlElement)
        ensures
            exists|sid: Seq<char>, tf: Seq<(Seq<char>, Seq<char>)>|
                is_generated_id(sid, "section_"@) && tf.len() == assessment.questions@.len() && (
                forall|i: int|
                    0 <= i < tf.len() ==> is_generated_id((#[trigger] tf[i]).0, "choice_"@)
                        && is_generated_id(tf[i].1, "choice_"@)) && r@ =~~= #[trigger] spec_section(
                    *assessment,
                    self.canvas_extensions,
                    sid,
                    tf,
                ),
    {
        let mut section = XmlElement::new("section");
        let sid = generated_id("section_");
        section.add_attribute("ident", sid.as_str());
        section.add_attribute("title", "Main Section");
        let ghost mut tf: Seq<(Seq<char>, Seq<char>)> = Seq::empty();
        let n = assessment.questions.len();
        let mut i: usize = 0;
        while i < n
            invariant
                n == assessment.questions@.len(),
                0 <= i <= n,
                tf.len() == i,
                forall|j: int|
                    0 <= j < tf.len() ==> is_generated_id((#[trigger] tf[j]).0, "choice_"@)
                        && is_generated_id(tf[j].1, "choice_"@),
                section@.name == "section"@,
                section@.attrs =~= seq![("ident"@, sid@), ("title"@, "Main Section"@)],
                section@.children =~= Seq::new(
                    i as nat,
                    |j: int| SpecNode::Element(
                        spec_item(assessment.questions@[j], self.canvas_extensions, tf[j].0, tf[j].1),
                    ),
                ),
            decreases n - i,
        {
            let item = self.build_item(&assessment.questions[i]);
            let ghost (tfa, tfb) = choose|tfa: Seq<char>, tfb: Seq<char>|
                is_generated_id(tfa, "choice_"@) && is_generated_id(tfb, "choice_"@) && item@ =~~= #[trigger] spec_item(
                    assessment.questions@[i as int],
                    self.canvas_extensions,
                    tfa,
                    tfb,
                );
            let ghost item_view = item@;
            section.add_child(item);
            proof {
                tf = tf.push((tfa, tfb));
                assert(item_view == spec_item(
                    assessment.questions@[i as int],
                    self.canvas_extensions,
                    tfa,
                    tfb,
                ));
                assert(section@.children =~= Seq::new(
                    (i + 1) as nat,
                    |j: int| SpecNode::Element(
                        spec_item(assessment.questions@[j], self.canvas_extensions, tf[j].0, tf[j].1),
                    ),
                ));
            }
            i = i + 1;
        }
        proof {
            assert(section@ =~~= spec_section(*assessment, self.canvas_extensions, sid@, tf));
        }
        section
    }

    fn build_assessment(&self, assessment: &Assessment) -> (r: XmlElement)
        ensures
            exists|sid: Seq<char>, tf: Seq<(Seq<char>, Seq<char>)>|
                is_generated_id(sid, "section_"@) && tf.len() == assessment.questions@.len() && (
                forall|i: int|
                    0 <= i < tf.len() ==> is_generated_id((#[trigger] tf[i]).0, "choice_"@)
                        && is_generated_id(tf[i].1, "choice_"@)) && r@ =~~= #[trigger] spec_assessment_elem(
                    *assessment,
                    self.canvas_extensions,
                    sid,
                    tf,
                ),
    {
        let mut elem = XmlElement::new("assessment");
        elem.add_attribute("ident", assessment.identifier.as_str());
        elem.add_attribute("title", assessment.title.as_str());
        if self.canvas_extensions {
            let metadata = self.build_qtimetadata(assessment);
            elem.add_child(metadata);
        }
        let section = self.build_section(assessment);
        let ghost (sid, tf) = choose|sid: Seq<char>, tf: Seq<(Seq<char>, Seq<char>)>|
            is_generated_id(sid, "section_"@) && tf.len() == assessment.questions@.len() && (
            forall|i: int|
                0 <= i < tf.len() ==> is_generated_id((#[trigger] tf[i]).0, "choice_"@)
                    && is_generated_id(tf[i].1, "choice_"@)) && section@ =~~= #[trigger] spec_section(
                *assessment,
                self.canvas_extensions,
                sid,
                tf,
            );
        let ghost section_view = section@;
        elem.add_child(section);
        proof {
            assert(section_view == spec_section(*assessment, self.canvas_extensions, sid, tf));
            assert(elem@.children =~~= spec_assessment_elem(
                *assessment,
                self.canvas_extensions,
                sid,
                tf,
            ).children);
            assert(elem@ =~~= spec_assessment_elem(*assessment, self.canvas_extensions, sid, tf));
        }
        elem
    }

    /// Builds the root `questestinterop` document for an assessment. Always
    /// succeeds; the `Result` mirrors the boundary contract of the library.
    pub fn build_questestinterop(&self, assessment: &Assessment) -> (r: Result<
        XmlElement,
        QtiError,
    >)
        ensures
            r is Ok,
            builds_questestinterop(*assessment, self.canvas_extensions, r->Ok_0@),
    {
        let mut root = XmlElement::new("questestinterop");
        root.add_attribute("xmlns", "http://www.imsglobal.org/xsd/ims_qtiasiv1p2");
        root.add_attribute("xmlns:xsi", "http://www.w3.org/2001/XMLSchema-instance");
        root.add_attribute(
            "xsi:schemaLocation",
            "http://www.imsglobal.org/xsd/ims_qtiasiv1p2 http://www.imsglobal.org/xsd/ims_qtiasiv1p2p1.xsd",
        );
        let assessment_elem = self.build_assessment(assessment);
        let ghost (sid, tf) = choose|sid: Seq<char>, tf: Seq<(Seq<char>, Seq<char>)>|
            is_generated_id(sid, "section_"@) && tf.len() == assessment.questions@.len() && (
            forall|i: int|
                0 <= i < tf.len() ==> is_generated_id((#[trigger] tf[i]).0, "choice_"@)
                    && is_generated_id(tf[i].1, "choice_"@)) && assessment_elem@ =~~= #[trigger] spec_assessment_elem(
                *assessment,
                self.canvas_extensions,
                sid,
                tf,
            );
        let ghost ae_view = assessment_elem@;
        root.add_child(assessment_elem);
        proof {
            assert(ae_view == spec_assessment_elem(*assessment, self.canvas_extensions, sid, tf));
            assert(root@.children =~~= spec_questestinterop(
                *assessment,
                self.canvas_extensions,
                sid,
                tf,
            ).children);
            assert(root@ =~~= spec_questestinterop(*assessment, self.canvas_extensions, sid, tf));
        }
        Ok(root)
    }
}

impl Default for QtiBuilder {
    fn default() -> (r: QtiBuilder)
        ensures
            !r.canvas_extensions,
    {
        QtiBuilder::new()
    }
}

} // verus!
