//! The authoring-syntax parser: classifies each logical line by a fixed
//! set of patterns, in a fixed priority order, and produces an
//! [`Assessment`] or a structured parse error.

use vstd::prelude::*;
use crate::decimal::Decimal;
use crate::error::QtiError;
use crate::text::{
    digit_run, digit_run_at, is_digit_char, is_letter_char, is_space_char, space_run,
    space_run_at, spec_trim, trim_str, has_ci_prefix, has_prefix_ci, split_lines, spec_lines,
    letter_char, spec_u64_digits, u64_to_string,
};
use crate::types::{
    AcceptableAnswer, Assessment, Choice, Feedback, Question, QuestionType, is_generated_id,
};

verus! {

/// A blank line: nothing but whitespace.
pub open spec fn blank_line(s: Seq<char>) -> bool {
    space_run(s, 0) == s.len()
}

/// A numbered question line: digits, a dot, then at least one whitespace
/// character.
pub open spec fn question_line(s: Seq<char>) -> bool {
    let d = digit_run(s, 0);
    d >= 1 && d < s.len() && s[d] == '.' && d + 1 < s.len() && is_space_char(s[d + 1])
}

/// The question text: the line with its number, dot and following
/// whitespace removed.
pub open spec fn question_text(s: Seq<char>) -> Seq<char> {
    let d = digit_run(s, 0);
    s.skip(d + 1 + space_run(s, d + 1))
}

/// A correct multiple-choice line: `*<letter>)`.
pub open spec fn mc_correct_line(s: Seq<char>) -> bool {
    s.len() >= 3 && s[0] == '*' && is_letter_char(s[1]) && s[2] == ')'
}

pub open spec fn mc_correct_text(s: Seq<char>) -> Seq<char> {
    s.skip(3 + space_run(s, 3))
}

/// An incorrect multiple-choice line: `<letter>)`.
pub open spec fn mc_incorrect_line(s: Seq<char>) -> bool {
    s.len() >= 2 && is_letter_char(s[0]) && s[1] == ')'
}

pub open spec fn mc_incorrect_text(s: Seq<char>) -> Seq<char> {
    s.skip(2 + space_run(s, 2))
}

/// A correct multiple-answer line: `[*]`.
pub open spec fn ma_correct_line(s: Seq<char>) -> bool {
    s.len() >= 3 && s[0] == '[' && s[1] == '*' && s[2] == ']'
}

pub open spec fn ma_correct_text(s: Seq<char>) -> Seq<char> {
    s.skip(3 + space_run(s, 3))
}

/// An incorrect multiple-answer line: `[]` or `[` with one whitespace and
/// `]`.
pub open spec fn ma_incorrect_line(s: Seq<char>) -> bool {
    s.len() >= 2 && s[0] == '[' && (s[1] == ']' || (s.len() >= 3 && is_space_char(s[1]) && s[2]
        == ']'))
}

pub open spec fn ma_incorrect_text(s: Seq<char>) -> Seq<char> {
    if s[1] == ']' {
        s.skip(2 + space_run(s, 2))
    } else {
        s.skip(3 + space_run(s, 3))
    }
}

/// A short-answer line: a leading asterisk.
pub open spec fn short_answer_line(s: Seq<char>) -> bool {
    s.len() >= 1 && s[0] == '*'
}

pub open spec fn short_answer_text(s: Seq<char>) -> Seq<char> {
    s.skip(1 + space_run(s, 1))
}

/// An essay marker: three or more underscores and nothing else.
pub open spec fn essay_line(s: Seq<char>) -> bool {
    s.len() >= 3 && forall|i: int| 0 <= i < s.len() ==> #[trigger] s[i] == '_'
}

/// A file-upload marker: three or more carets and nothing else.
pub open spec fn upload_line(s: Seq<char>) -> bool {
    s.len() >= 3 && forall|i: int| 0 <= i < s.len() ==> #[trigger] s[i] == '^'
}

/// A signed decimal number at position `j` of `s`, as the numerical
/// pattern reads one: an optional sign, then digits, an optional dot and
/// more digits. The result gives the sign, the integer digits, the
/// fraction digits and the position after the match.
pub open spec fn number_at(s: Seq<char>, j: int) -> Option<(bool, Seq<char>, Seq<char>, int)> {
    let neg = j < s.len() && s[j] == '-';
    let signed = j < s.len() && (s[j] == '+' || s[j] == '-');
    let j1 = if signed {
        j + 1
    } else {
        j
    };
    let d1 = digit_run(s, j1);
    if d1 > 0 && j1 + d1 < s.len() && s[j1 + d1] == '.' && digit_run(s, j1 + d1 + 1) > 0 {
        let d2 = digit_run(s, j1 + d1 + 1);
        Some((neg, s.subrange(j1, j1 + d1), s.subrange(j1 + d1 + 1, j1 + d1 + 1 + d2), j1 + d1 + 1
            + d2))
    } else if d1 > 0 {
        Some((neg, s.subrange(j1, j1 + d1), Seq::empty(), j1 + d1))
    } else if j1 < s.len() && s[j1] == '.' && digit_run(s, j1 + 1) > 0 {
        let d2 = digit_run(s, j1 + 1);
        Some((neg, Seq::empty(), s.subrange(j1 + 1, j1 + 1 + d2), j1 + 1 + d2))
    } else {
        None
    }
}

/// A numerical answer line: `=`, whitespace, then a number.
pub open spec fn numerical_line(s: Seq<char>) -> bool {
    s.len() >= 1 && s[0] == '=' && number_at(s, 1 + space_run(s, 1)) is Some
}

/// The optional tolerance after the answer: whitespace, `±`, whitespace
/// and a number; absent when any part of that is missing.
pub open spec fn margin_at(s: Seq<char>, e: int) -> Option<(bool, Seq<char>, Seq<char>, int)> {
    let p = e + space_run(s, e);
    if p < s.len() && s[p] == '\u{b1}' {
        number_at(s, p + 1 + space_run(s, p + 1))
    } else {
        None
    }
}

/// The integer value of a digit string.
pub open spec fn digits_val(ds: Seq<char>) -> int
    decreases ds.len(),
{
    if ds.len() == 0 {
        0
    } else {
        digits_val(ds.drop_last()) * 10 + (ds[ds.len() - 1] as int - '0' as int)
    }
}

/// The decimal denoted by a sign and digit parts: the digits joined as the
/// mantissa, scaled by the number of fraction digits.
pub open spec fn spec_number_value(neg: bool, int_digits: Seq<char>, frac_digits: Seq<char>) -> Decimal {
    Decimal {
        negative: neg,
        mantissa: digits_val(int_digits + frac_digits) as u64,
        scale: frac_digits.len() as u32,
    }
}

/// The denoted mantissa fits an unsigned 64-bit integer (the parser
/// rejects longer digit strings as invalid numbers).
pub open spec fn number_fits(int_digits: Seq<char>, frac_digits: Seq<char>) -> bool {
    digits_val(int_digits + frac_digits) <= u64::MAX && frac_digits.len() <= u32::MAX
}

/// A matched number ends within the line.
pub proof fn lemma_number_at_bounds(s: Seq<char>, j: int)
    requires
        0 <= j <= s.len(),
    ensures
        number_at(s, j) matches Some((neg, ints, fracs, e)) ==> j <= e <= s.len(),
{
    let signed = j < s.len() && (s[j] == '+' || s[j] == '-');
    let j1 = if signed {
        j + 1
    } else {
        j
    };
    crate::text::lemma_digit_run(s, j1);
    let d1 = digit_run(s, j1);
    if d1 > 0 && j1 + d1 < s.len() && s[j1 + d1] == '.' {
        crate::text::lemma_digit_run(s, j1 + d1 + 1);
    }
    if j1 < s.len() {
        crate::text::lemma_digit_run(s, j1 + 1);
    }
}

/// The classification of a block's first meaningful line, in the fixed
/// priority order of the syntax.
pub ghost enum LineKind {
    MultipleChoice,
    MultipleAnswer,
    ShortAnswer,
    Numerical,
    Essay,
    FileUpload,
    Unknown,
}

pub open spec fn classify_line(s: Seq<char>) -> LineKind {
    if mc_correct_line(s) || mc_incorrect_line(s) {
        LineKind::MultipleChoice
    } else if ma_correct_line(s) || ma_incorrect_line(s) {
        LineKind::MultipleAnswer
    } else if short_answer_line(s) {
        LineKind::ShortAnswer
    } else if numerical_line(s) {
        LineKind::Numerical
    } else if essay_line(s) {
        LineKind::Essay
    } else if upload_line(s) {
        LineKind::FileUpload
    } else {
        LineKind::Unknown
    }
}

fn is_blank_line(s: &str) -> (r: bool)
    ensures
        r == blank_line(s@),
{
    let n = s.unicode_len();
    space_run_at(s, 0) == n
}

fn is_question_line(s: &str) -> (r: bool)
    ensures
        r == question_line(s@),
{
    let n = s.unicode_len();
    let d = digit_run_at(s, 0);
    d >= 1 && d < n && s.get_char(d) == '.' && d + 1 < n && space_char_at(s, d + 1)
}

fn space_char_at(s: &str, i: usize) -> (r: bool)
    requires
        i < s@.len(),
    ensures
        r == is_space_char(s@[i as int]),
{
    crate::text::space_char(s.get_char(i))
}

fn question_text_of(s: &str) -> (r: String)
    requires
        question_line(s@),
    ensures
        r@ == question_text(s@),
{
    let n = s.unicode_len();
    let d = digit_run_at(s, 0);
    let k = d + 1 + space_run_at(s, d + 1);
    proof {
        assert(s@.subrange(k as int, n as int) =~= question_text(s@));
    }
    s.substring_char(k, n).to_owned()
}

fn is_mc_correct(s: &str) -> (r: bool)
    ensures
        r == mc_correct_line(s@),
{
    let n = s.unicode_len();
    n >= 3 && s.get_char(0) == '*' && letter_char(s.get_char(1)) && s.get_char(2) == ')'
}

fn is_mc_incorrect(s: &str) -> (r: bool)
    ensures
        r == mc_incorrect_line(s@),
{
    let n = s.unicode_len();
    n >= 2 && letter_char(s.get_char(0)) && s.get_char(1) == ')'
}

fn is_ma_correct(s: &str) -> (r: bool)
    ensures
        r == ma_correct_line(s@),
{
    let n = s.unicode_len();
    n >= 3 && s.get_char(0) == '[' && s.get_char(1) == '*' && s.get_char(2) == ']'
}

fn is_ma_incorrect(s: &str) -> (r: bool)
    ensures
        r == ma_incorrect_line(s@),
{
    let n = s.unicode_len();
    n >= 2 && s.get_char(0) == '[' && (s.get_char(1) == ']' || (n >= 3 && space_char_at(s, 1)
        && s.get_char(2) == ']'))
}

fn is_short_answer(s: &str) -> (r: bool)
    ensures
        r == short_answer_line(s@),
{
    let n = s.unicode_len();
    n >= 1 && s.get_char(0) == '*'
}

fn is_numerical_line(s: &str) -> (r: bool)
    ensures
        r == numerical_line(s@),
{
    let n = s.unicode_len();
    if n < 1 || s.get_char(0) != '=' {
        return false;
    }
    let j = 1 + space_run_at(s, 1);
    parse_number_at_probe(s, j)
}

/// Whether a number begins at `j` (without reading its value).
fn parse_number_at_probe(s: &str, j: usize) -> (r: bool)
    requires
        j <= s@.len(),
    ensures
        r == (number_at(s@, j as int) is Some),
{
    let n = s.unicode_len();
    let j1 = if j < n && (s.get_char(j) == '+' || s.get_char(j) == '-') {
        j + 1
    } else {
        j
    };
    let d1 = digit_run_at(s, j1);
    if d1 > 0 {
        return true;
    }
    j1 < n && s.get_char(j1) == '.' && digit_run_at(s, j1 + 1) > 0
}

fn is_essay_line(s: &str) -> (r: bool)
    ensures
        r == essay_line(s@),
{
    let n = s.unicode_len();
    if n < 3 {
        return false;
    }
    let mut i: usize = 0;
    while i < n
        invariant
            n == s@.len(),
            0 <= i <= n,
            forall|j: int| 0 <= j < i ==> #[trigger] s@[j] == '_',
        decreases n - i,
    {
        if s.get_char(i) != '_' {
            return false;
        }
        i = i + 1;
    }
    true
}

fn is_upload_line(s: &str) -> (r: bool)
    ensures
        r == upload_line(s@),
{
    let n = s.unicode_len();
    if n < 3 {
        return false;
    }
    let mut i: usize = 0;
    while i < n
        invariant
            n == s@.len(),
            0 <= i <= n,
            forall|j: int| 0 <= j < i ==> #[trigger] s@[j] == '^',
        decreases n - i,
    {
        if s.get_char(i) != '^' {
            return false;
        }
        i = i + 1;
    }
    true
}

/// Strips a marker of `len` characters plus the following whitespace.
fn strip_marker(s: &str, len: usize) -> (r: String)
    requires
        len <= s@.len(),
    ensures
        r@ == s@.skip(len + space_run(s@, len as int)),
{
    let n = s.unicode_len();
    let k = len + space_run_at(s, len);
    proof {
        assert(s@.subrange(k as int, n as int) =~= s@.skip(k as int));
    }
    s.substring_char(k, n).to_owned()
}

proof fn lemma_digits_val_nonneg(ds: Seq<char>)
    requires
        forall|i: int| 0 <= i < ds.len() ==> is_digit_char(#[trigger] ds[i]),
    ensures
        digits_val(ds) >= 0,
    decreases ds.len(),
{
    if ds.len() > 0 {
        assert(forall|i: int|
            0 <= i < ds.drop_last().len() ==> is_digit_char(#[trigger] ds.drop_last()[i]));
        lemma_digits_val_nonneg(ds.drop_last());
    }
}

/// Once a prefix of the digits already exceeds the largest mantissa, the
/// whole string does too.
proof fn lemma_digits_val_prefix_gt(ds: Seq<char>, k: int)
    requires
        0 <= k <= ds.len(),
        forall|i: int| 0 <= i < ds.len() ==> is_digit_char(#[trigger] ds[i]),
        digits_val(ds.take(k)) > u64::MAX,
    ensures
        digits_val(ds) > u64::MAX,
    decreases ds.len() - k,
{
    if k < ds.len() {
        assert(ds.take(k + 1).drop_last() =~= ds.take(k));
        assert(ds.take(k + 1)[k] == ds[k]);
        assert(digits_val(ds.take(k + 1)) == digits_val(ds.take(k)) * 10 + (ds[k] as int
            - '0' as int));
        assert(digits_val(ds.take(k)) * 10 > digits_val(ds.take(k)));
        lemma_digits_val_prefix_gt(ds, k + 1);
    } else {
        assert(ds.take(k) =~= ds);
    }
}

/// Folds the digits of two ranges of `s` into a mantissa, reporting
/// overflow of the 64-bit range as `None`.
fn fold_digits(s: &str, a1: usize, b1: usize, a2: usize, b2: usize) -> (r: Option<u64>)
    requires
        a1 <= b1 <= s@.len(),
        a2 <= b2 <= s@.len(),
        forall|i: int| a1 <= i < b1 ==> is_digit_char(#[trigger] s@[i]),
        forall|i: int| a2 <= i < b2 ==> is_digit_char(#[trigger] s@[i]),
    ensures
        ({
            let ds = s@.subrange(a1 as int, b1 as int) + s@.subrange(a2 as int, b2 as int);
            match r {
                Some(v) => v == digits_val(ds),
                None => digits_val(ds) > u64::MAX,
            }
        }),
{
    let ghost ds = s@.subrange(a1 as int, b1 as int) + s@.subrange(a2 as int, b2 as int);
    proof {
        assert(forall|i: int| 0 <= i < ds.len() ==> is_digit_char(#[trigger] ds[i]));
    }
    let mut acc: u64 = 0;
    let mut i = a1;
    proof {
        assert(ds.take(0) =~= Seq::<char>::empty());
    }
    while i < b1
        invariant
            a1 <= i <= b1 <= s@.len(),
            a2 <= b2 <= s@.len(),
            forall|j: int| a1 <= j < b1 ==> is_digit_char(#[trigger] s@[j]),
            forall|j: int| a2 <= j < b2 ==> is_digit_char(#[trigger] s@[j]),
            forall|j: int| 0 <= j < ds.len() ==> is_digit_char(#[trigger] ds[j]),
            ds == s@.subrange(a1 as int, b1 as int) + s@.subrange(a2 as int, b2 as int),
            acc == digits_val(ds.take(i - a1)),
        decreases b1 - i,
    {
        let c = s.get_char(i);
        let d: u64 = (c as u32 as u64) - 48;
        proof {
            assert(ds[i - a1] == s@[i as int]);
            assert(ds.take(i - a1 + 1).drop_last() =~= ds.take(i - a1));
            assert(ds.take(i - a1 + 1)[i - a1] == ds[i - a1]);
        }
        let acc10 = match acc.checked_mul(10) {
            Some(v) => v,
            None => {
                proof {
                    lemma_digits_val_nonneg(ds.take(i - a1));
                    lemma_digits_val_prefix_gt(ds, i - a1 + 1);
                }
                return None;
            },
        };
        let next = match acc10.checked_add(d) {
            Some(v) => v,
            None => {
                proof {
                    lemma_digits_val_nonneg(ds.take(i - a1));
                    lemma_digits_val_prefix_gt(ds, i - a1 + 1);
                }
                return None;
            },
        };
        acc = next;
        i = i + 1;
    }
    let ghost n1 = b1 - a1;
    let mut i = a2;
    while i < b2
        invariant
            a1 <= b1 <= s@.len(),
            a2 <= i <= b2 <= s@.len(),
            n1 == b1 - a1,
            forall|j: int| a2 <= j < b2 ==> is_digit_char(#[trigger] s@[j]),
            forall|j: int| 0 <= j < ds.len() ==> is_digit_char(#[trigger] ds[j]),
            ds == s@.subrange(a1 as int, b1 as int) + s@.subrange(a2 as int, b2 as int),
            acc == digits_val(ds.take(n1 + i - a2)),
        decreases b2 - i,
    {
        let c = s.get_char(i);
        let d: u64 = (c as u32 as u64) - 48;
        proof {
            assert(ds[n1 + i - a2] == s@[i as int]);
            assert(ds.take(n1 + i - a2 + 1).drop_last() =~= ds.take(n1 + i - a2));
            assert(ds.take(n1 + i - a2 + 1)[n1 + i - a2] == ds[n1 + i - a2]);
        }
        let acc10 = match acc.checked_mul(10) {
            Some(v) => v,
            None => {
                proof {
                    lemma_digits_val_nonneg(ds.take(n1 + i - a2));
                    lemma_digits_val_prefix_gt(ds, n1 + i - a2 + 1);
                }
                return None;
            },
        };
        let next = match acc10.checked_add(d) {
            Some(v) => v,
            None => {
                proof {
                    lemma_digits_val_nonneg(ds.take(n1 + i - a2));
                    lemma_digits_val_prefix_gt(ds, n1 + i - a2 + 1);
                }
                return None;
            },
        };
        acc = next;
        i = i + 1;
    }
    proof {
        assert(ds.take(n1 + b2 - a2) =~= ds);
    }
    Some(acc)
}

/// Reads the signed decimal number at position `j`, as [`number_at`]
/// describes it; `None` where there is none, or where its mantissa
/// overflows the 64-bit range.
fn parse_number_at(s: &str, j: usize) -> (r: Option<(Decimal, usize)>)
    requires
        j <= s@.len(),
    ensures
        match number_at(s@, j as int) {
            Some((neg, ints, fracs, end)) => {
                if number_fits(ints, fracs) {
                    r == Some((spec_number_value(neg, ints, fracs), end as usize))
                } else {
                    r is None
                }
            },
            None => r is None,
        },
{
    let n = s.unicode_len();
    let (neg, j1): (bool, usize) = if j < n && (s.get_char(j) == '+' || s.get_char(j) == '-') {
        (s.get_char(j) == '-', j + 1)
    } else {
        (false, j)
    };
    let d1 = digit_run_at(s, j1);
    proof {
        crate::text::lemma_digit_run(s@, j1 as int);
    }
    if d1 > 0 && j1 + d1 < n && s.get_char(j1 + d1) == '.' && digit_run_at(s, j1 + d1 + 1) > 0 {
        let d2 = digit_run_at(s, j1 + d1 + 1);
        proof {
            crate::text::lemma_digit_run(s@, (j1 + d1 + 1) as int);
        }
        let mantissa = match fold_digits(s, j1, j1 + d1, j1 + d1 + 1, j1 + d1 + 1 + d2) {
            Some(v) => v,
            None => {
                return None;
            },
        };
        if d2 > u32::MAX as usize {
            return None;
        }
        Some((Decimal { negative: neg, mantissa, scale: d2 as u32 }, j1 + d1 + 1 + d2))
    } else if d1 > 0 {
        let mantissa = match fold_digits(s, j1, j1 + d1, j1, j1) {
            Some(v) => v,
            None => {
                return None;
            },
        };
        proof {
            assert(s@.subrange(j1 as int, (j1 + d1) as int) + s@.subrange(j1 as int, j1 as int)
                =~= s@.subrange(j1 as int, (j1 + d1) as int));
            assert(s@.subrange(j1 as int, (j1 + d1) as int) + Seq::<char>::empty() =~= s@.subrange(
                j1 as int,
                (j1 + d1) as int,
            ));
        }
        Some((Decimal { negative: neg, mantissa, scale: 0 }, j1 + d1))
    } else if j1 < n && s.get_char(j1) == '.' && digit_run_at(s, j1 + 1) > 0 {
        let d2 = digit_run_at(s, j1 + 1);
        proof {
            crate::text::lemma_digit_run(s@, (j1 + 1) as int);
        }
        let mantissa = match fold_digits(s, j1, j1, j1 + 1, j1 + 1 + d2) {
            Some(v) => v,
            None => {
                return None;
            },
        };
        proof {
            assert(s@.subrange(j1 as int, j1 as int) + s@.subrange(
                (j1 + 1) as int,
                (j1 + 1 + d2) as int,
            ) =~= Seq::<char>::empty() + s@.subrange((j1 + 1) as int, (j1 + 1 + d2) as int));
        }
        if d2 > u32::MAX as usize {
            return None;
        }
        Some((Decimal { negative: neg, mantissa, scale: d2 as u32 }, j1 + 1 + d2))
    } else {
        None
    }
}

/// One parsed choice: its text and correctness marker.
pub ghost struct ChoiceData {
    pub text: Seq<char>,
    pub correct: bool,
}

/// The parsed body of a question, by kind.
pub ghost enum QTypeData {
    Mc { choices: Seq<ChoiceData> },
    Ma { choices: Seq<ChoiceData> },
    Short { answers: Seq<Seq<char>> },
    Num { answer: Decimal, margin: Option<Decimal> },
    Essay,
    Upload,
}

/// One parsed question: its text, body, trailing feedback and solution.
pub ghost struct QuestionData {
    pub text: Seq<char>,
    pub qtype: QTypeData,
    pub general: Option<Seq<char>>,
    pub correct_fb: Option<Seq<char>>,
    pub incorrect_fb: Option<Seq<char>>,
    pub solution: Option<Seq<char>>,
}

/// A parse failure: a document-level error, or a classification failure at
/// a line.
pub ghost enum ParseFailure {
    Document(Seq<char>),
    Format { line: int, message: Seq<char> },
}

/// The length of the run of blank lines starting at `i`.
pub open spec fn blank_run(lines: Seq<Seq<char>>, i: int) -> int
    decreases lines.len() - i,
{
    if i < 0 || i >= lines.len() || !blank_line(lines[i]) {
        0
    } else {
        1 + blank_run(lines, i + 1)
    }
}

pub proof fn lemma_blank_run(lines: Seq<Seq<char>>, i: int)
    requires
        0 <= i <= lines.len(),
    ensures
        0 <= blank_run(lines, i),
        i + blank_run(lines, i) <= lines.len(),
        forall|j: int| i <= j < i + blank_run(lines, i) ==> blank_line(#[trigger] lines[j]),
        i + blank_run(lines, i) == lines.len() || !blank_line(lines[i + blank_run(lines, i)]),
    decreases lines.len() - i,
{
    if i < lines.len() && blank_line(lines[i]) {
        lemma_blank_run(lines, i + 1);
    }
}

/// The multiple-choice body: collects marked choice lines, skipping blank
/// lines, stopping at the next question line or an unrecognized line.
pub open spec fn sp_mc_choices(lines: Seq<Seq<char>>, i: int) -> (Seq<ChoiceData>, int)
    decreases lines.len() - i,
{
    if i < 0 || i >= lines.len() {
        (Seq::empty(), i)
    } else {
        let l = lines[i];
        if mc_correct_line(l) {
            let rest = sp_mc_choices(lines, i + 1);
            (seq![ChoiceData { text: mc_correct_text(l), correct: true }] + rest.0, rest.1)
        } else if mc_incorrect_line(l) {
            let rest = sp_mc_choices(lines, i + 1);
            (seq![ChoiceData { text: mc_incorrect_text(l), correct: false }] + rest.0, rest.1)
        } else if question_line(l) {
            (Seq::empty(), i)
        } else if blank_line(l) {
            sp_mc_choices(lines, i + 1)
        } else {
            (Seq::empty(), i)
        }
    }
}

/// The multiple-answer body: bracket-marked choices.
pub open spec fn sp_ma_choices(lines: Seq<Seq<char>>, i: int) -> (Seq<ChoiceData>, int)
    decreases lines.len() - i,
{
    if i < 0 || i >= lines.len() {
        (Seq::empty(), i)
    } else {
        let l = lines[i];
        if ma_correct_line(l) {
            let rest = sp_ma_choices(lines, i + 1);
            (seq![ChoiceData { text: ma_correct_text(l), correct: true }] + rest.0, rest.1)
        } else if ma_incorrect_line(l) {
            let rest = sp_ma_choices(lines, i + 1);
            (seq![ChoiceData { text: ma_incorrect_text(l), correct: false }] + rest.0, rest.1)
        } else if question_line(l) {
            (Seq::empty(), i)
        } else if blank_line(l) {
            sp_ma_choices(lines, i + 1)
        } else {
            (Seq::empty(), i)
        }
    }
}

/// The short-answer body: starred acceptable answers.
pub open spec fn sp_sa_answers(lines: Seq<Seq<char>>, i: int) -> (Seq<Seq<char>>, int)
    decreases lines.len() - i,
{
    if i < 0 || i >= lines.len() {
        (Seq::empty(), i)
    } else {
        let l = lines[i];
        if short_answer_line(l) {
            let rest = sp_sa_answers(lines, i + 1);
            (seq![short_answer_text(l)] + rest.0, rest.1)
        } else if question_line(l) {
            (Seq::empty(), i)
        } else if blank_line(l) {
            sp_sa_answers(lines, i + 1)
        } else {
            (Seq::empty(), i)
        }
    }
}

/// The numerical body, read from one line: the answer, and the tolerance
/// where present and readable. A mantissa beyond the 64-bit range makes
/// the answer invalid and the tolerance absent.
pub open spec fn sp_numerical(s: Seq<char>) -> Result<(Decimal, Option<Decimal>), ()> {
    match number_at(s, 1 + space_run(s, 1)) {
        Some((neg, ints, fracs, end)) => {
            if number_fits(ints, fracs) {
                let margin = match margin_at(s, end) {
                    Some((n2, i2, f2, _e2)) => if number_fits(i2, f2) {
                        Some(spec_number_value(n2, i2, f2))
                    } else {
                        None
                    },
                    None => None,
                };
                Ok((spec_number_value(neg, ints, fracs), margin))
            } else {
                Err(())
            }
        },
        None => Err(()),
    }
}

/// The trailing feedback and solution lines of a question; a later line
/// with the same prefix overrides an earlier one.
pub ghost struct ExtrasData {
    pub general: Option<Seq<char>>,
    pub correct_fb: Option<Seq<char>>,
    pub incorrect_fb: Option<Seq<char>>,
    pub solution: Option<Seq<char>>,
    pub end: int,
}

pub open spec fn sp_extras(lines: Seq<Seq<char>>, i: int) -> ExtrasData
    decreases lines.len() - i,
{
    if i < 0 || i >= lines.len() {
        ExtrasData { general: None, correct_fb: None, incorrect_fb: None, solution: None, end: i }
    } else {
        let l = lines[i];
        if has_ci_prefix(l, "feedback:"@) {
            let rest = sp_extras(lines, i + 1);
            ExtrasData {
                general: if rest.general is Some {
                    rest.general
                } else {
                    Some(spec_trim(l.skip(9)))
                },
                ..rest
            }
        } else if has_ci_prefix(l, "correct:"@) {
            let rest = sp_extras(lines, i + 1);
            ExtrasData {
                correct_fb: if rest.correct_fb is Some {
                    rest.correct_fb
                } else {
                    Some(spec_trim(l.skip(8)))
                },
                ..rest
            }
        } else if has_ci_prefix(l, "incorrect:"@) {
            let rest = sp_extras(lines, i + 1);
            ExtrasData {
                incorrect_fb: if rest.incorrect_fb is Some {
                    rest.incorrect_fb
                } else {
                    Some(spec_trim(l.skip(10)))
                },
                ..rest
            }
        } else if has_ci_prefix(l, "solution:"@) {
            let rest = sp_extras(lines, i + 1);
            ExtrasData {
                solution: if rest.solution is Some {
                    rest.solution
                } else {
                    Some(spec_trim(l.skip(9)))
                },
                ..rest
            }
        } else if question_line(l) {
            ExtrasData { general: None, correct_fb: None, incorrect_fb: None, solution: None, end: i }
        } else if blank_line(l) {
            sp_extras(lines, i + 1)
        } else {
            ExtrasData { general: None, correct_fb: None, incorrect_fb: None, solution: None, end: i }
        }
    }
}

/// The number of correct markers in a choice list.
pub open spec fn count_correct(cs: Seq<ChoiceData>) -> int
    decreases cs.len(),
{
    if cs.len() == 0 {
        0
    } else {
        (if cs[0].correct {
            1int
        } else {
            0int
        }) + count_correct(cs.drop_first())
    }
}

/// The message of a correct-marker count mismatch.
pub open spec fn mc_count_message(c: int) -> Seq<char> {
    "Multiple choice question must have exactly 1 correct answer, found "@ + spec_u64_digits(c)
}

/// One question block, starting at its numbered line: the question text,
/// the classified and parsed body, then the trailing feedback and
/// solution. The result carries the position after the block.
pub open spec fn sp_question(lines: Seq<Seq<char>>, i: int) -> Result<(QuestionData, int), ParseFailure>
    decreases lines.len() - i,
{
    let text = question_text(lines[i]);
    let j = i + 1;
    let p = j + blank_run(lines, j);
    if p >= lines.len() {
        Err(ParseFailure::Document("Unexpected end of input"@))
    } else {
        let body: Result<(QTypeData, int), ParseFailure> = match classify_line(lines[p]) {
            LineKind::MultipleChoice => {
                let r = sp_mc_choices(lines, j);
                if r.0.len() == 0 {
                    Err(ParseFailure::Document("No choices found for multiple choice question"@))
                } else if count_correct(r.0) != 1 {
                    Err(ParseFailure::Document(mc_count_message(count_correct(r.0))))
                } else {
                    Ok((QTypeData::Mc { choices: r.0 }, r.1))
                }
            },
            LineKind::MultipleAnswer => {
                let r = sp_ma_choices(lines, j);
                if r.0.len() == 0 {
                    Err(ParseFailure::Document("No choices found for multiple answer question"@))
                } else {
                    Ok((QTypeData::Ma { choices: r.0 }, r.1))
                }
            },
            LineKind::ShortAnswer => {
                let r = sp_sa_answers(lines, j);
                if r.0.len() == 0 {
                    Err(ParseFailure::Document("No answers found for short answer question"@))
                } else {
                    Ok((QTypeData::Short { answers: r.0 }, r.1))
                }
            },
            LineKind::Numerical => {
                match sp_numerical(lines[p]) {
                    Ok((answer, margin)) => Ok((QTypeData::Num { answer, margin }, p + 1)),
                    Err(()) => Err(ParseFailure::Document("Invalid numerical answer"@)),
                }
            },
            LineKind::Essay => Ok((QTypeData::Essay, p + 1)),
            LineKind::FileUpload => Ok((QTypeData::Upload, p + 1)),
            LineKind::Unknown => Err(
                ParseFailure::Format {
                    line: p,
                    message: "Cannot determine question type from: "@ + lines[p],
                },
            ),
        };
        match body {
            Ok((qtype, e)) => {
                let ex = sp_extras(lines, e);
                Ok(
                    (
                        QuestionData {
                            text,
                            qtype,
                            general: ex.general,
                            correct_fb: ex.correct_fb,
                            incorrect_fb: ex.incorrect_fb,
                            solution: ex.solution,
                        },
                        ex.end,
                    ),
                )
            },
            Err(e) => Err(e),
        }
    }
}

pub proof fn lemma_sp_mc_choices_bounds(lines: Seq<Seq<char>>, i: int)
    requires
        0 <= i <= lines.len(),
    ensures
        i <= sp_mc_choices(lines, i).1 <= lines.len(),
    decreases lines.len() - i,
{
    if i < lines.len() {
        lemma_sp_mc_choices_bounds(lines, i + 1);
    }
}

pub proof fn lemma_sp_ma_choices_bounds(lines: Seq<Seq<char>>, i: int)
    requires
        0 <= i <= lines.len(),
    ensures
        i <= sp_ma_choices(lines, i).1 <= lines.len(),
    decreases lines.len() - i,
{
    if i < lines.len() {
        lemma_sp_ma_choices_bounds(lines, i + 1);
    }
}

pub proof fn lemma_sp_sa_answers_bounds(lines: Seq<Seq<char>>, i: int)
    requires
        0 <= i <= lines.len(),
    ensures
        i <= sp_sa_answers(lines, i).1 <= lines.len(),
    decreases lines.len() - i,
{
    if i < lines.len() {
        lemma_sp_sa_answers_bounds(lines, i + 1);
    }
}

pub proof fn lemma_sp_extras_bounds(lines: Seq<Seq<char>>, i: int)
    requires
        0 <= i <= lines.len(),
    ensures
        i <= sp_extras(lines, i).end <= lines.len(),
    decreases lines.len() - i,
{
    if i < lines.len() {
        lemma_sp_extras_bounds(lines, i + 1);
    }
}

/// A parsed block always moves past its numbered line.
pub proof fn lemma_sp_question_bounds(lines: Seq<Seq<char>>, i: int)
    requires
        0 <= i < lines.len(),
    ensures
        sp_question(lines, i) matches Ok((q, e)) ==> i + 1 <= e <= lines.len(),
{
    let j = i + 1;
    lemma_blank_run(lines, j);
    let p = j + blank_run(lines, j);
    if p < lines.len() {
        lemma_sp_mc_choices_bounds(lines, j);
        lemma_sp_ma_choices_bounds(lines, j);
        lemma_sp_sa_answers_bounds(lines, j);
        lemma_sp_extras_bounds(lines, sp_mc_choices(lines, j).1);
        lemma_sp_extras_bounds(lines, sp_ma_choices(lines, j).1);
        lemma_sp_extras_bounds(lines, sp_sa_answers(lines, j).1);
        lemma_sp_extras_bounds(lines, p + 1);
    }
}

/// The questions of the document from line `i` on: lines outside a block
/// are skipped, a numbered line opens a block, and a block's failure fails
/// the whole parse.
pub open spec fn sp_questions(lines: Seq<Seq<char>>, i: int) -> Result<Seq<QuestionData>, ParseFailure>
    decreases lines.len() - i,
        via sp_questions_decreases
{
    if i < 0 || i >= lines.len() {
        Ok(Seq::empty())
    } else if question_line(lines[i]) {
        match sp_question(lines, i) {
            Ok((q, e)) => match sp_questions(lines, e) {
                Ok(rest) => Ok(seq![q] + rest),
                Err(f) => Err(f),
            },
            Err(f) => Err(f),
        }
    } else {
        sp_questions(lines, i + 1)
    }
}

#[via_fn]
proof fn sp_questions_decreases(lines: Seq<Seq<char>>, i: int) {
    if 0 <= i < lines.len() {
        lemma_sp_question_bounds(lines, i);
    }
}

/// The run of leading number-sign characters.
pub open spec fn hash_run(s: Seq<char>, i: int) -> int
    decreases s.len() - i,
{
    if i < 0 || i >= s.len() || s[i] != '#' {
        0
    } else {
        1 + hash_run(s, i + 1)
    }
}

pub proof fn lemma_hash_run(s: Seq<char>, i: int)
    requires
        0 <= i <= s.len(),
    ensures
        0 <= hash_run(s, i),
        i + hash_run(s, i) <= s.len(),
    decreases s.len() - i,
{
    if i < s.len() && s[i] == '#' {
        lemma_hash_run(s, i + 1);
    }
}

/// The title found in the first five lines: the remainder of a `title:`
/// line, or of a line of leading number signs, whichever comes first.
pub open spec fn sp_title(lines: Seq<Seq<char>>, i: int) -> Option<Seq<char>>
    decreases lines.len() - i,
{
    if i < 0 || i >= lines.len() || i >= 5 {
        None
    } else {
        let l = lines[i];
        if has_ci_prefix(l, "title:"@) {
            Some(spec_trim(l.skip(6)))
        } else if l.len() > 0 && l[0] == '#' {
            Some(spec_trim(l.skip(hash_run(l, 0))))
        } else {
            sp_title(lines, i + 1)
        }
    }
}

/// The whole parse: the title of the first five lines, and the question
/// blocks; a document without questions fails.
pub open spec fn sp_parse(input: Seq<char>) -> Result<
    (Option<Seq<char>>, Seq<QuestionData>),
    ParseFailure,
> {
    let lines = spec_lines(input);
    match sp_questions(lines, 0) {
        Ok(qs) => {
            if qs.len() == 0 {
                Err(ParseFailure::Document("No questions found in input"@))
            } else {
                Ok((sp_title(lines, 0), qs))
            }
        },
        Err(f) => Err(f),
    }
}

/// The views of a line vector.
pub open spec fn line_views(lines: Seq<String>) -> Seq<Seq<char>> {
    Seq::new(lines.len(), |i: int| lines[i]@)
}

/// A built [`Choice`] carries a parsed choice's text and marker, a
/// generated identifier and no feedback or weight.
pub open spec fn choice_matches(c: Choice, d: ChoiceData) -> bool {
    &&& is_generated_id(c.id@, "choice_"@)
    &&& c.text@ == d.text
    &&& c.correct == d.correct
    &&& c.feedback is None
    &&& c.weight is None
}

pub open spec fn choices_match(cs: Seq<Choice>, ds: Seq<ChoiceData>) -> bool {
    cs.len() == ds.len() && forall|i: int| 0 <= i < cs.len() ==> choice_matches(
        #[trigger] cs[i],
        ds[i],
    )
}

/// A built [`AcceptableAnswer`] carries a parsed answer's text at full
/// weight.
pub open spec fn answers_match(ans: Seq<AcceptableAnswer>, ds: Seq<Seq<char>>) -> bool {
    &&& ans.len() == ds.len()
    &&& forall|i: int|
        0 <= i < ans.len() ==> (#[trigger] ans[i]).text@ == ds[i] && ans[i].weight == (Decimal {
            negative: false,
            mantissa: 1u64,
            scale: 0u32,
        })
}

pub open spec fn opt_text_matches(o: Option<String>, d: Option<Seq<char>>) -> bool {
    match (o, d) {
        (Some(s), Some(t)) => s@ == t,
        (None, None) => true,
        _ => false,
    }
}

/// A built [`QuestionType`] value carries a parsed body's data with the
/// parser's fixed flags: multiple choice shuffles, multiple answer grants
/// partial credit, short answers match case-insensitively, uploads allow
/// the fixed extension list.
pub open spec fn qtype_matches(qt: QuestionType, d: QTypeData) -> bool {
    match d {
        QTypeData::Mc { choices } => qt matches QuestionType::MultipleChoice {
            choices: cs,
            shuffle,
        } && shuffle && choices_match(cs@, choices),
        QTypeData::Ma { choices } => qt matches QuestionType::MultipleAnswer {
            choices: cs,
            partial_credit,
        } && partial_credit && choices_match(cs@, choices),
        QTypeData::Short { answers } => qt matches QuestionType::ShortAnswer {
            answers: ans,
            case_sensitive,
        } && !case_sensitive && answers_match(ans@, answers),
        QTypeData::Num { answer, margin } => qt matches QuestionType::Numerical {
            answer: a,
            margin: m,
            min,
            max,
        } && a == answer && m == margin && min is None && max is None,
        QTypeData::Essay => qt matches QuestionType::Essay {
            expected_length,
            rich_text,
        } && expected_length is None && rich_text,
        QTypeData::Upload => qt matches QuestionType::FileUpload { allowed_extensions } && (
        allowed_extensions@.len() == 3 && allowed_extensions@[0]@ == "pdf"@
            && allowed_extensions@[1]@ == "docx"@ && allowed_extensions@[2]@ == "txt"@),
    }
}

/// A built [`Question`] carries a parsed block's data, a generated
/// identifier, one point and no title; feedback is attached exactly when
/// one of its three fields was found.
pub open spec fn question_matches(q: Question, d: QuestionData) -> bool {
    &&& is_generated_id(q.id@, "question_"@)
    &&& q.title@.len() == 0
    &&& q.text@ == d.text
    &&& qtype_matches(q.question_type, d.qtype)
    &&& q.points == (Decimal { negative: false, mantissa: 1u64, scale: 0u32 })
    &&& opt_text_matches(q.solution, d.solution)
    &&& if d.general is Some || d.correct_fb is Some || d.incorrect_fb is Some {
        q.feedback matches Some(f) && opt_text_matches(f.general, d.general) && opt_text_matches(
            f.correct,
            d.correct_fb,
        ) && opt_text_matches(f.incorrect, d.incorrect_fb)
    } else {
        q.feedback is None
    }
}

pub open spec fn questions_match(qs: Seq<Question>, ds: Seq<QuestionData>) -> bool {
    qs.len() == ds.len() && forall|i: int| 0 <= i < qs.len() ==> question_matches(
        #[trigger] qs[i],
        ds[i],
    )
}

/// A returned error carries a parse failure's category and message.
pub open spec fn failure_matches(e: QtiError, f: ParseFailure) -> bool {
    match f {
        ParseFailure::Document(m) => e matches QtiError::ParseError(s) && s@ == m,
        ParseFailure::Format { line, message } => e matches QtiError::InvalidFormat {
            line: l,
            message: msg,
        } && l == line && msg@ == message,
    }
}

pub proof fn lemma_count_correct_push(ds: Seq<ChoiceData>, x: ChoiceData)
    ensures
        count_correct(ds.push(x)) == count_correct(ds) + (if x.correct {
            1int
        } else {
            0int
        }),
    decreases ds.len(),
{
    if ds.len() == 0 {
        reveal_with_fuel(count_correct, 3);
        assert(ds.push(x).drop_first() =~= Seq::<ChoiceData>::empty());
        assert(ds.push(x)[0] == x);
    } else {
        assert(ds.push(x).drop_first() =~= ds.drop_first().push(x));
        assert(ds.push(x)[0] == ds[0]);
        lemma_count_correct_push(ds.drop_first(), x);
    }
}


pub open spec fn opt_view(o: Option<String>) -> Option<Seq<char>> {
    match o {
        Some(s) => Some(s@),
        None => None,
    }
}

/// Parses the authoring syntax into an [`Assessment`].
pub struct Parser {}

impl Parser {
    pub fn new() -> (r: Parser) {
        Parser {  }
    }

    fn parse_multiple_choice(&self, lines: &Vec<String>, i: &mut usize) -> (r: Result<
        QuestionType,
        QtiError,
    >)
        requires
            *old(i) <= lines@.len(),
        ensures
            *final(i) == sp_mc_choices(line_views(lines@), *old(i) as int).1,
            ({
                let ds = sp_mc_choices(line_views(lines@), *old(i) as int).0;
                match r {
                    Ok(qt) => ds.len() > 0 && count_correct(ds) == 1 && qtype_matches(
                        qt,
                        QTypeData::Mc { choices: ds },
                    ),
                    Err(e) => {
                        ||| (ds.len() == 0 && (e matches QtiError::ParseError(m) && m@
                            == "No choices found for multiple choice question"@))
                        ||| (ds.len() > 0 && count_correct(ds) != 1 && (e
                            matches QtiError::ParseError(m) && m@ == mc_count_message(
                            count_correct(ds),
                        )))
                    },
                }
            }),
    {
        let ghost lv = line_views(lines@);
        let ghost i0 = *i as int;
        let mut choices: Vec<Choice> = Vec::new();
        let ghost mut ds: Seq<ChoiceData> = Seq::empty();
        let n = lines.len();
        let mut done = false;
        while !done && *i < n
            invariant
                lv == line_views(lines@),
                n == lines@.len(),
                i0 <= *i as int <= n,
                choices_match(choices@, ds),
                sp_mc_choices(lv, i0).0 =~= ds + sp_mc_choices(lv, *i as int).0,
                sp_mc_choices(lv, i0).1 == sp_mc_choices(lv, *i as int).1,
                done ==> sp_mc_choices(lv, *i as int) == (Seq::<ChoiceData>::empty(), *i as int),
            decreases n - *i + (if done {
                0int
            } else {
                1int
            }),
        {
            let l = &lines[*i];
            proof {
                assert(lv[*i as int] == l@);
            }
            if is_mc_correct(l.as_str()) {
                let text = strip_marker(l.as_str(), 3);
                let c = Choice::new(text.as_str(), true);
                choices.push(c);
                proof {
                    ds = ds.push(ChoiceData { text: mc_correct_text(l@), correct: true });
                    assert(sp_mc_choices(lv, i0).0 =~= ds + sp_mc_choices(lv, *i + 1).0);
                }
                *i = *i + 1;
            } else if is_mc_incorrect(l.as_str()) {
                let text = strip_marker(l.as_str(), 2);
                let c = Choice::new(text.as_str(), false);
                choices.push(c);
                proof {
                    ds = ds.push(ChoiceData { text: mc_incorrect_text(l@), correct: false });
                    assert(sp_mc_choices(lv, i0).0 =~= ds + sp_mc_choices(lv, *i + 1).0);
                }
                *i = *i + 1;
            } else if is_question_line(l.as_str()) {
                done = true;
            } else if is_blank_line(l.as_str()) {
                *i = *i + 1;
            } else {
                done = true;
            }
        }
        proof {
            assert(sp_mc_choices(lv, *i as int) == (Seq::<ChoiceData>::empty(), *i as int));
            assert(sp_mc_choices(lv, i0).0 =~= ds);
        }
        if choices.len() == 0 {
            let m = String::from_str("No choices found for multiple choice question");
            return Err(QtiError::ParseError(m));
        }
        let mut correct_count: usize = 0;
        let nc = choices.len();
        let mut j: usize = 0;
        while j < nc
            invariant
                nc == choices@.len() == ds.len(),
                0 <= j <= nc,
                choices_match(choices@, ds),
                correct_count <= j,
                correct_count == count_correct(ds.take(j as int)),
            decreases nc - j,
        {
            proof {
                assert(ds.take(j + 1) =~= ds.take(j as int).push(ds[j as int]));
                lemma_count_correct_push(ds.take(j as int), ds[j as int]);
            }
            if choices[j].correct {
                correct_count = correct_count + 1;
            }
            j = j + 1;
        }
        proof {
            assert(ds.take(nc as int) =~= ds);
        }
        if correct_count != 1 {
            let mut m = String::from_str(
                "Multiple choice question must have exactly 1 correct answer, found ",
            );
            proof {
                reveal_strlit("Multiple choice question must have exactly 1 correct answer, found ");
            }
            let cc = u64_to_string(correct_count as u64);
            m.append(cc.as_str());
            return Err(QtiError::ParseError(m));
        }
        Ok(QuestionType::MultipleChoice { choices, shuffle: true })
    }

    fn parse_multiple_answer(&self, lines: &Vec<String>, i: &mut usize) -> (r: Result<
        QuestionType,
        QtiError,
    >)
        requires
            *old(i) <= lines@.len(),
        ensures
            *final(i) == sp_ma_choices(line_views(lines@), *old(i) as int).1,
            ({
                let ds = sp_ma_choices(line_views(lines@), *old(i) as int).0;
                match r {
                    Ok(qt) => ds.len() > 0 && qtype_matches(qt, QTypeData::Ma { choices: ds }),
                    Err(e) => ds.len() == 0 && (e matches QtiError::ParseError(m) && m@
                        == "No choices found for multiple answer question"@),
                }
            }),
    {
        let ghost lv = line_views(lines@);
        let ghost i0 = *i as int;
        let mut choices: Vec<Choice> = Vec::new();
        let ghost mut ds: Seq<ChoiceData> = Seq::empty();
        let n = lines.len();
        let mut done = false;
        while !done && *i < n
            invariant
                lv == line_views(lines@),
                n == lines@.len(),
                i0 <= *i as int <= n,
                choices_match(choices@, ds),
                sp_ma_choices(lv, i0).0 =~= ds + sp_ma_choices(lv, *i as int).0,
                sp_ma_choices(lv, i0).1 == sp_ma_choices(lv, *i as int).1,
                done ==> sp_ma_choices(lv, *i as int) == (Seq::<ChoiceData>::empty(), *i as int),
            decreases n - *i + (if done {
                0int
            } else {
                1int
            }),
        {
            let l = &lines[*i];
            proof {
                assert(lv[*i as int] == l@);
            }
            if is_ma_correct(l.as_str()) {
                let text = strip_marker(l.as_str(), 3);
                let c = Choice::new(text.as_str(), true);
                choices.push(c);
                proof {
                    ds = ds.push(ChoiceData { text: ma_correct_text(l@), correct: true });
                    assert(sp_ma_choices(lv, i0).0 =~= ds + sp_ma_choices(lv, *i + 1).0);
                }
                *i = *i + 1;
            } else if is_ma_incorrect(l.as_str()) {
                let text = if l.as_str().get_char(1) == ']' {
                    strip_marker(l.as_str(), 2)
                } else {
                    strip_marker(l.as_str(), 3)
                };
                let c = Choice::new(text.as_str(), false);
                choices.push(c);
                proof {
                    ds = ds.push(ChoiceData { text: ma_incorrect_text(l@), correct: false });
                    assert(sp_ma_choices(lv, i0).0 =~= ds + sp_ma_choices(lv, *i + 1).0);
                }
                *i = *i + 1;
            } else if is_question_line(l.as_str()) {
                done = true;
            } else if is_blank_line(l.as_str()) {
                *i = *i + 1;
            } else {
                done = true;
            }
        }
        proof {
            assert(sp_ma_choices(lv, *i as int) == (Seq::<ChoiceData>::empty(), *i as int));
            assert(sp_ma_choices(lv, i0).0 =~= ds);
        }
        if choices.len() == 0 {
            let m = String::from_str("No choices found for multiple answer question");
            return Err(QtiError::ParseError(m));
        }
        Ok(QuestionType::MultipleAnswer { choices, partial_credit: true })
    }

    fn parse_short_answer(&self, lines: &Vec<String>, i: &mut usize) -> (r: Result<
        QuestionType,
        QtiError,
    >)
        requires
            *old(i) <= lines@.len(),
        ensures
            *final(i) == sp_sa_answers(line_views(lines@), *old(i) as int).1,
            ({
                let ds = sp_sa_answers(line_views(lines@), *old(i) as int).0;
                match r {
                    Ok(qt) => ds.len() > 0 && qtype_matches(qt, QTypeData::Short { answers: ds }),
                    Err(e) => ds.len() == 0 && (e matches QtiError::ParseError(m) && m@
                        == "No answers found for short answer question"@),
                }
            }),
    {
        let ghost lv = line_views(lines@);
        let ghost i0 = *i as int;
        let mut answers: Vec<AcceptableAnswer> = Vec::new();
        let ghost mut ds: Seq<Seq<char>> = Seq::empty();
        let n = lines.len();
        let mut done = false;
        while !done && *i < n
            invariant
                lv == line_views(lines@),
                n == lines@.len(),
                i0 <= *i as int <= n,
                answers_match(answers@, ds),
                sp_sa_answers(lv, i0).0 =~= ds + sp_sa_answers(lv, *i as int).0,
                sp_sa_answers(lv, i0).1 == sp_sa_answers(lv, *i as int).1,
                done ==> sp_sa_answers(lv, *i as int) == (Seq::<Seq<char>>::empty(), *i as int),
            decreases n - *i + (if done {
                0int
            } else {
                1int
            }),
        {
            let l = &lines[*i];
            proof {
                assert(lv[*i as int] == l@);
            }
            if is_short_answer(l.as_str()) {
                let text = strip_marker(l.as_str(), 1);
                let a = AcceptableAnswer::new(text.as_str());
                answers.push(a);
                proof {
                    ds = ds.push(short_answer_text(l@));
                    assert(sp_sa_answers(lv, i0).0 =~= ds + sp_sa_answers(lv, *i + 1).0);
                }
                *i = *i + 1;
            } else if is_question_line(l.as_str()) {
                done = true;
            } else if is_blank_line(l.as_str()) {
                *i = *i + 1;
            } else {
                done = true;
            }
        }
        proof {
            assert(sp_sa_answers(lv, *i as int) == (Seq::<Seq<char>>::empty(), *i as int));
            assert(sp_sa_answers(lv, i0).0 =~= ds);
        }
        if answers.len() == 0 {
            let m = String::from_str("No answers found for short answer question");
            return Err(QtiError::ParseError(m));
        }
        Ok(QuestionType::ShortAnswer { answers, case_sensitive: false })
    }
}

impl Parser {
    fn parse_numerical(&self, lines: &Vec<String>, i: &mut usize) -> (r: Result<
        QuestionType,
        QtiError,
    >)
        requires
            *old(i) < lines@.len(),
            numerical_line(line_views(lines@)[*old(i) as int]),
        ensures
            r is Ok ==> *final(i) == *old(i) + 1,
            r is Err ==> *final(i) == *old(i),
            ({
                let l = line_views(lines@)[*old(i) as int];
                match r {
                    Ok(qt) => sp_numerical(l) matches Ok((answer, margin)) && qtype_matches(
                        qt,
                        QTypeData::Num { answer, margin },
                    ),
                    Err(e) => sp_numerical(l) is Err && (e matches QtiError::ParseError(m) && m@
                        == "Invalid numerical answer"@),
                }
            }),
    {
        let l = &lines[*i];
        proof {
            assert(line_views(lines@)[*old(i) as int] == l@);
        }
        let n_lines = lines.len();
        let n = l.as_str().unicode_len();
        let j = 1 + space_run_at(l.as_str(), 1);
        proof {
            lemma_number_at_bounds(l@, j as int);
        }
        let (answer, end) = match parse_number_at(l.as_str(), j) {
            Some(v) => v,
            None => {
                let m = String::from_str("Invalid numerical answer");
                return Err(QtiError::ParseError(m));
            },
        };
        let p2 = end + space_run_at(l.as_str(), end);
        let margin: Option<Decimal> = if p2 < n && l.as_str().get_char(p2) == '\u{b1}' {
            let j2 = p2 + 1 + space_run_at(l.as_str(), p2 + 1);
            match parse_number_at(l.as_str(), j2) {
                Some((m, _)) => Some(m),
                None => None,
            }
        } else {
            None
        };
        *i = *i + 1;
        Ok(QuestionType::Numerical { answer, margin, min: None, max: None })
    }

    fn parse_feedback_and_solution(
        &self,
        lines: &Vec<String>,
        i: &mut usize,
        question: &mut Question,
    )
        requires
            *old(i) <= lines@.len(),
        ensures
            *final(i) == sp_extras(line_views(lines@), *old(i) as int).end,
            ({
                let ex = sp_extras(line_views(lines@), *old(i) as int);
                &&& final(question).id == old(question).id
                &&& final(question).title == old(question).title
                &&& final(question).text == old(question).text
                &&& final(question).question_type == old(question).question_type
                &&& final(question).points == old(question).points
                &&& (if ex.solution is Some {
                    opt_text_matches(final(question).solution, ex.solution)
                } else {
                    final(question).solution == old(question).solution
                })
                &&& (if ex.general is Some || ex.correct_fb is Some || ex.incorrect_fb is Some {
                    final(question).feedback matches Some(f) && opt_text_matches(
                        f.general,
                        ex.general,
                    ) && opt_text_matches(f.correct, ex.correct_fb) && opt_text_matches(
                        f.incorrect,
                        ex.incorrect_fb,
                    )
                } else {
                    final(question).feedback == old(question).feedback
                })
            }),
    {
        let ghost lv = line_views(lines@);
        let ghost i0 = *i as int;
        let mut general: Option<String> = None;
        let mut correct_fb: Option<String> = None;
        let mut incorrect_fb: Option<String> = None;
        let mut solution: Option<String> = None;
        let n = lines.len();
        let mut done = false;
        while !done && *i < n
            invariant
                lv == line_views(lines@),
                n == lines@.len(),
                i0 <= *i as int <= n,
                sp_extras(lv, i0).end == sp_extras(lv, *i as int).end,
                sp_extras(lv, i0).general == (if sp_extras(lv, *i as int).general is Some {
                    sp_extras(lv, *i as int).general
                } else {
                    opt_view(general)
                }),
                sp_extras(lv, i0).correct_fb == (if sp_extras(lv, *i as int).correct_fb is Some {
                    sp_extras(lv, *i as int).correct_fb
                } else {
                    opt_view(correct_fb)
                }),
                sp_extras(lv, i0).incorrect_fb == (if sp_extras(lv, *i as int).incorrect_fb
                    is Some {
                    sp_extras(lv, *i as int).incorrect_fb
                } else {
                    opt_view(incorrect_fb)
                }),
                sp_extras(lv, i0).solution == (if sp_extras(lv, *i as int).solution is Some {
                    sp_extras(lv, *i as int).solution
                } else {
                    opt_view(solution)
                }),
                done ==> sp_extras(lv, *i as int) == (ExtrasData {
                    general: None,
                    correct_fb: None,
                    incorrect_fb: None,
                    solution: None,
                    end: *i as int,
                }),
            decreases n - *i + (if done {
                0int
            } else {
                1int
            }),
        {
            let l = &lines[*i];
            proof {
                assert(lv[*i as int] == l@);
            }
            let ln = l.as_str().unicode_len();
            if has_prefix_ci(l.as_str(), "feedback:") {
                proof {
                    reveal_strlit("feedback:");
                    assert(l@.subrange(9, ln as int) =~= l@.skip(9));
                }
                general = Some(trim_str(l.as_str().substring_char(9, ln)));
                *i = *i + 1;
            } else if has_prefix_ci(l.as_str(), "correct:") {
                proof {
                    reveal_strlit("correct:");
                    assert(l@.subrange(8, ln as int) =~= l@.skip(8));
                }
                correct_fb = Some(trim_str(l.as_str().substring_char(8, ln)));
                *i = *i + 1;
            } else if has_prefix_ci(l.as_str(), "incorrect:") {
                proof {
                    reveal_strlit("incorrect:");
                    assert(l@.subrange(10, ln as int) =~= l@.skip(10));
                }
                incorrect_fb = Some(trim_str(l.as_str().substring_char(10, ln)));
                *i = *i + 1;
            } else if has_prefix_ci(l.as_str(), "solution:") {
                proof {
                    reveal_strlit("solution:");
                    assert(l@.subrange(9, ln as int) =~= l@.skip(9));
                }
                solution = Some(trim_str(l.as_str().substring_char(9, ln)));
                *i = *i + 1;
            } else if is_question_line(l.as_str()) {
                done = true;
            } else if is_blank_line(l.as_str()) {
                *i = *i + 1;
            } else {
                done = true;
            }
        }
        if solution.is_some() {
            question.solution = solution;
        }
        let any = general.is_some() || correct_fb.is_some() || incorrect_fb.is_some();
        if any {
            question.feedback = Some(
                Feedback { correct: correct_fb, incorrect: incorrect_fb, general },
            );
        }
    }

    /// The title of the first five lines, where one carries a `title:`
    /// prefix or opens with a number sign.
    fn extract_title(&self, lines: &Vec<String>) -> (r: Option<String>)
        ensures
            opt_view(r) == sp_title(line_views(lines@), 0),
    {
        let ghost lv = line_views(lines@);
        let n = lines.len();
        let mut i: usize = 0;
        while i < n && i < 5
            invariant
                lv == line_views(lines@),
                n == lines@.len(),
                0 <= i <= n,
                i <= 5,
                sp_title(lv, 0) == sp_title(lv, i as int),
            decreases n - i,
        {
            let l = &lines[i];
            proof {
                assert(lv[i as int] == l@);
            }
            let ln = l.as_str().unicode_len();
            if has_prefix_ci(l.as_str(), "title:") {
                proof {
                    reveal_strlit("title:");
                    assert(l@.subrange(6, ln as int) =~= l@.skip(6));
                }
                return Some(trim_str(l.as_str().substring_char(6, ln)));
            }
            if ln > 0 && l.as_str().get_char(0) == '#' {
                let mut h: usize = 0;
                while h < ln && l.as_str().get_char(h) == '#'
                    invariant
                        ln == l@.len(),
                        0 <= h <= ln,
                        hash_run(l@, 0) == h + hash_run(l@, h as int),
                    decreases ln - h,
                {
                    proof {
                        reveal_with_fuel(hash_run, 2);
                    }
                    h = h + 1;
                }
                proof {
                    lemma_hash_run(l@, h as int);
                    assert(hash_run(l@, h as int) == 0);
                    assert(l@.subrange(h as int, ln as int) =~= l@.skip(hash_run(l@, 0)));
                }
                return Some(trim_str(l.as_str().substring_char(h, ln)));
            }
            i = i + 1;
        }
        None
    }
}

/// The provisional classification of a question block.
enum QuestionTypeHint {
    MultipleChoice,
    MultipleAnswer,
    ShortAnswer,
    Numerical,
    Essay,
    FileUpload,
}

spec fn hint_kind(h: QuestionTypeHint) -> LineKind {
    match h {
        QuestionTypeHint::MultipleChoice => LineKind::MultipleChoice,
        QuestionTypeHint::MultipleAnswer => LineKind::MultipleAnswer,
        QuestionTypeHint::ShortAnswer => LineKind::ShortAnswer,
        QuestionTypeHint::Numerical => LineKind::Numerical,
        QuestionTypeHint::Essay => LineKind::Essay,
        QuestionTypeHint::FileUpload => LineKind::FileUpload,
    }
}

impl Parser {
    /// Classifies the first non-blank line at or after `start`, in the
    /// fixed priority order; fails where the input ends first or no
    /// pattern fits.
    fn determine_question_type(&self, lines: &Vec<String>, start: usize) -> (r: Result<
        (QuestionTypeHint, usize),
        QtiError,
    >)
        requires
            start <= lines@.len(),
        ensures
            ({
                let lv = line_views(lines@);
                let p = start + blank_run(lv, start as int);
                match r {
                    Ok((h, pp)) => pp == p && p < lv.len() && hint_kind(h) == classify_line(lv[p])
                        && !(classify_line(lv[p]) is Unknown),
                    Err(e) => {
                        ||| (p >= lv.len() && (e matches QtiError::ParseError(m) && m@
                            == "Unexpected end of input"@))
                        ||| (p < lv.len() && classify_line(lv[p]) is Unknown && (e
                            matches QtiError::InvalidFormat { line, message } && line == p
                            && message@ == "Cannot determine question type from: "@ + lv[p]))
                    },
                }
            }),
    {
        let ghost lv = line_views(lines@);
        let n = lines.len();
        let mut p = start;
        while p < n && is_blank_line(lines[p].as_str())
            invariant
                lv == line_views(lines@),
                n == lines@.len(),
                start <= p <= n,
                blank_run(lv, start as int) == p - start + blank_run(lv, p as int),
            decreases n - p,
        {
            proof {
                reveal_with_fuel(blank_run, 2);
                assert(lv[p as int] == lines@[p as int]@);
            }
            p = p + 1;
        }
        proof {
            lemma_blank_run(lv, p as int);
            if p < n {
                assert(lv[p as int] == lines@[p as int]@);
                assert(blank_run(lv, p as int) == 0);
            }
        }
        if p >= n {
            let m = String::from_str("Unexpected end of input");
            return Err(QtiError::ParseError(m));
        }
        let l = &lines[p];
        proof {
            assert(lv[p as int] == l@);
        }
        if is_mc_correct(l.as_str()) || is_mc_incorrect(l.as_str()) {
            Ok((QuestionTypeHint::MultipleChoice, p))
        } else if is_ma_correct(l.as_str()) || is_ma_incorrect(l.as_str()) {
            Ok((QuestionTypeHint::MultipleAnswer, p))
        } else if is_short_answer(l.as_str()) {
            Ok((QuestionTypeHint::ShortAnswer, p))
        } else if is_numerical_line(l.as_str()) {
            Ok((QuestionTypeHint::Numerical, p))
        } else if is_essay_line(l.as_str()) {
            Ok((QuestionTypeHint::Essay, p))
        } else if is_upload_line(l.as_str()) {
            Ok((QuestionTypeHint::FileUpload, p))
        } else {
            let mut m = String::from_str("Cannot determine question type from: ");
            proof {
                reveal_strlit("Cannot determine question type from: ");
            }
            m.append(l.as_str());
            Err(QtiError::InvalidFormat { line: p, message: m })
        }
    }

    /// Parses one question block starting at the numbered line `*i`.
    fn parse_question(&self, lines: &Vec<String>, i: &mut usize) -> (r: Result<Question, QtiError>)
        requires
            *old(i) < lines@.len(),
            question_line(line_views(lines@)[*old(i) as int]),
        ensures
            ({
                let lv = line_views(lines@);
                match sp_question(lv, *old(i) as int) {
                    Ok((qd, e)) => r matches Ok(q) && question_matches(q, qd) && *final(i) == e,
                    Err(f) => r matches Err(er) && failure_matches(er, f),
                }
            }),
    {
        let ghost lv = line_views(lines@);
        let ghost i0 = *i as int;
        let l0 = &lines[*i];
        proof {
            assert(lv[i0] == l0@);
        }
        let text = question_text_of(l0.as_str());
        let n_lines = lines.len();
        *i = *i + 1;
        let (hint, p) = match self.determine_question_type(lines, *i) {
            Ok(v) => v,
            Err(e) => {
                return Err(e);
            },
        };
        let question_type: QuestionType = match hint {
            QuestionTypeHint::MultipleChoice => {
                match self.parse_multiple_choice(lines, i) {
                    Ok(qt) => qt,
                    Err(e) => {
                        return Err(e);
                    },
                }
            },
            QuestionTypeHint::MultipleAnswer => {
                match self.parse_multiple_answer(lines, i) {
                    Ok(qt) => qt,
                    Err(e) => {
                        return Err(e);
                    },
                }
            },
            QuestionTypeHint::ShortAnswer => {
                match self.parse_short_answer(lines, i) {
                    Ok(qt) => qt,
                    Err(e) => {
                        return Err(e);
                    },
                }
            },
            QuestionTypeHint::Numerical => {
                *i = p;
                match self.parse_numerical(lines, i) {
                    Ok(qt) => qt,
                    Err(e) => {
                        return Err(e);
                    },
                }
            },
            QuestionTypeHint::Essay => {
                *i = p + 1;
                QuestionType::Essay { expected_length: None, rich_text: true }
            },
            QuestionTypeHint::FileUpload => {
                *i = p + 1;
                let mut exts: Vec<String> = Vec::new();
                exts.push(String::from_str("pdf"));
                exts.push(String::from_str("docx"));
                exts.push(String::from_str("txt"));
                QuestionType::FileUpload { allowed_extensions: exts }
            },
        };
        proof {
            lemma_sp_mc_choices_bounds(lv, i0 + 1);
            lemma_sp_ma_choices_bounds(lv, i0 + 1);
            lemma_sp_sa_answers_bounds(lv, i0 + 1);
        }
        let mut question = Question::new(text.as_str(), question_type);
        self.parse_feedback_and_solution(lines, i, &mut question);
        Ok(question)
    }

    /// Parses authoring text into an assessment: an optional title in the
    /// first five lines, then one block per numbered question. The result
    /// carries every block's data in order; a block failure, or a document
    /// without a single question, fails the whole parse with the first
    /// error found.
    pub fn parse(&self, input: &str) -> (r: Result<Assessment, QtiError>)
        ensures
            match r {
                Ok(a) => {
                    &&& sp_parse(input@) matches Ok((t, qs)) && a.title@ == (match t {
                        Some(x) => x,
                        None => "Untitled Assessment"@,
                    }) && questions_match(a.questions@, qs)
                    &&& is_generated_id(a.identifier@, "assessment_"@)
                    &&& a.description is None
                    &&& a.time_limit is None
                    &&& a.metadata.author is None
                    &&& a.metadata.course is None
                    &&& !a.metadata.shuffle_questions
                    &&& !a.metadata.shuffle_answers
                    &&& !a.metadata.show_feedback
                    &&& !a.metadata.allow_review
                },
                Err(e) => sp_parse(input@) matches Err(f) && failure_matches(e, f),
            },
    {
        let lines = split_lines(input);
        let ghost lv = line_views(lines@);
        proof {
            assert(lv =~~= spec_lines(input@));
        }
        let mut assessment = Assessment::new("Untitled Assessment");
        match self.extract_title(&lines) {
            Some(t) => {
                assessment.title = t;
            },
            None => {},
        }
        proof {
            reveal_strlit("Untitled Assessment");
        }
        let ghost mut built: Seq<QuestionData> = Seq::empty();
        let n = lines.len();
        let mut i: usize = 0;
        while i < n
            invariant
                lv == line_views(lines@),
                lv == spec_lines(input@),
                n == lines@.len(),
                0 <= i <= n,
                questions_match(assessment.questions@, built),
                forall|rest: Seq<QuestionData>|
                    sp_questions(lv, i as int) == Result::<Seq<QuestionData>, ParseFailure>::Ok(
                        rest,
                    ) ==> sp_questions(lv, 0) == Result::<Seq<QuestionData>, ParseFailure>::Ok(
                        #[trigger] (built + rest),
                    ),
                sp_questions(lv, i as int) is Err ==> sp_questions(lv, 0) == sp_questions(
                    lv,
                    i as int,
                ),
                assessment.title@ == (match sp_title(lv, 0) {
                    Some(x) => x,
                    None => "Untitled Assessment"@,
                }),
                is_generated_id(assessment.identifier@, "assessment_"@),
                assessment.description is None,
                assessment.time_limit is None,
                assessment.metadata.author is None,
                assessment.metadata.course is None,
                !assessment.metadata.shuffle_questions,
                !assessment.metadata.shuffle_answers,
                !assessment.metadata.show_feedback,
                !assessment.metadata.allow_review,
            decreases n - i,
        {
            proof {
                assert(lv[i as int] == lines@[i as int]@);
            }
            if is_question_line(lines[i].as_str()) {
                let ghost i_before = i as int;
                proof {
                    lemma_sp_question_bounds(lv, i_before);
                }
                let question = match self.parse_question(&lines, &mut i) {
                    Ok(q) => q,
                    Err(e) => {
                        proof {
                            assert(sp_question(lv, i_before) is Err);
                            assert(sp_questions(lv, i_before) == Result::<
                                Seq<QuestionData>,
                                ParseFailure,
                            >::Err(sp_question(lv, i_before)->Err_0));
                        }
                        return Err(e);
                    },
                };
                let ghost qd = sp_question(lv, i_before)->Ok_0.0;
                let ghost old_built = built;
                proof {
                    built = old_built.push(qd);
                }
                assessment.questions.push(question);
                proof {
                    assert(sp_question(lv, i_before) == Result::<
                        (QuestionData, int),
                        ParseFailure,
                    >::Ok((qd, i as int)));
                    assert forall|rest: Seq<QuestionData>|
                        sp_questions(lv, i as int) == Result::<Seq<QuestionData>, ParseFailure>::Ok(
                            rest,
                        ) implies sp_questions(lv, 0) == Result::<
                        Seq<QuestionData>,
                        ParseFailure,
                    >::Ok(#[trigger] (built + rest)) by {
                        assert(sp_questions(lv, i_before) == Result::<
                            Seq<QuestionData>,
                            ParseFailure,
                        >::Ok(seq![qd] + rest));
                        assert(old_built + (seq![qd] + rest) =~= built + rest);
                        assert(sp_questions(lv, 0) == Result::<Seq<QuestionData>, ParseFailure>::Ok(
                            old_built + (seq![qd] + rest),
                        ));
                    }
                    assert(sp_questions(lv, i as int) is Err ==> sp_questions(lv, i_before)
                        == sp_questions(lv, i as int));
                }
            } else {
                i = i + 1;
            }
        }
        proof {
            assert(built + Seq::<QuestionData>::empty() =~= built);
        }
        if assessment.questions.len() == 0 {
            let m = String::from_str("No questions found in input");
            return Err(QtiError::ParseError(m));
        }
        Ok(assessment)
    }
}

impl Default for Parser {
    fn default() -> (r: Parser) {
        Parser::new()
    }
}

/// The number of numbered question lines at or after line `i`.
pub open spec fn q_count(lines: Seq<Seq<char>>, i: int) -> int
    decreases lines.len() - i,
{
    if i < 0 || i >= lines.len() {
        0
    } else {
        (if question_line(lines[i]) {
            1int
        } else {
            0int
        }) + q_count(lines, i + 1)
    }
}

/// No line that a question body or its trailing lines consume is itself a
/// numbered question line, so a block leaves the count of the remaining
/// numbered lines untouched.
proof fn lemma_blank_not_question(s: Seq<char>)
    requires
        blank_line(s),
    ensures
        !question_line(s),
{
    if s.len() > 0 {
        crate::text::lemma_space_run(s, 0);
        assert(is_space_char(s[0]));
    }
}

proof fn lemma_sp_mc_q_count(lines: Seq<Seq<char>>, i: int)
    requires
        0 <= i <= lines.len(),
    ensures
        q_count(lines, i) == q_count(lines, sp_mc_choices(lines, i).1),
    decreases lines.len() - i,
{
    if i < lines.len() {
        let l = lines[i];
        if mc_correct_line(l) || mc_incorrect_line(l) {
            lemma_sp_mc_q_count(lines, i + 1);
        } else if question_line(l) {
        } else if blank_line(l) {
            lemma_blank_not_question(l);
            lemma_sp_mc_q_count(lines, i + 1);
        }
    }
}

proof fn lemma_sp_ma_q_count(lines: Seq<Seq<char>>, i: int)
    requires
        0 <= i <= lines.len(),
    ensures
        q_count(lines, i) == q_count(lines, sp_ma_choices(lines, i).1),
    decreases lines.len() - i,
{
    if i < lines.len() {
        let l = lines[i];
        if ma_correct_line(l) || ma_incorrect_line(l) {
            lemma_sp_ma_q_count(lines, i + 1);
        } else if question_line(l) {
        } else if blank_line(l) {
            lemma_blank_not_question(l);
            lemma_sp_ma_q_count(lines, i + 1);
        }
    }
}

proof fn lemma_sp_sa_q_count(lines: Seq<Seq<char>>, i: int)
    requires
        0 <= i <= lines.len(),
    ensures
        q_count(lines, i) == q_count(lines, sp_sa_answers(lines, i).1),
    decreases lines.len() - i,
{
    if i < lines.len() {
        let l = lines[i];
        if short_answer_line(l) {
            lemma_sp_sa_q_count(lines, i + 1);
        } else if question_line(l) {
        } else if blank_line(l) {
            lemma_blank_not_question(l);
            lemma_sp_sa_q_count(lines, i + 1);
        }
    }
}

proof fn lemma_sp_extras_q_count(lines: Seq<Seq<char>>, i: int)
    requires
        0 <= i <= lines.len(),
    ensures
        q_count(lines, i) == q_count(lines, sp_extras(lines, i).end),
    decreases lines.len() - i,
{
    if i < lines.len() {
        let l = lines[i];
        if has_ci_prefix(l, "feedback:"@) || has_ci_prefix(l, "correct:"@) || has_ci_prefix(
            l,
            "incorrect:"@,
        ) || has_ci_prefix(l, "solution:"@) {
            proof_prefixed_not_question(l);
            lemma_sp_extras_q_count(lines, i + 1);
        } else if question_line(l) {
        } else if blank_line(l) {
            lemma_blank_not_question(l);
            lemma_sp_extras_q_count(lines, i + 1);
        }
    }
}

/// A feedback or solution line opens with a letter, not a digit.
proof fn proof_prefixed_not_question(l: Seq<char>)
    requires
        has_ci_prefix(l, "feedback:"@) || has_ci_prefix(l, "correct:"@) || has_ci_prefix(
            l,
            "incorrect:"@,
        ) || has_ci_prefix(l, "solution:"@),
    ensures
        !question_line(l),
{
    reveal_strlit("feedback:");
    reveal_strlit("correct:");
    reveal_strlit("incorrect:");
    reveal_strlit("solution:");
    assert("feedback:"@[0] == 'f' && "correct:"@[0] == 'c' && "incorrect:"@[0] == 'i'
        && "solution:"@[0] == 's');
    if question_line(l) {
        crate::text::lemma_digit_run(l, 0);
        assert(is_digit_char(l[0]));
        if has_ci_prefix(l, "feedback:"@) {
            assert(crate::text::matches_ci(l[0], "feedback:"@[0]));
        } else if has_ci_prefix(l, "correct:"@) {
            assert(crate::text::matches_ci(l[0], "correct:"@[0]));
        } else if has_ci_prefix(l, "incorrect:"@) {
            assert(crate::text::matches_ci(l[0], "incorrect:"@[0]));
        } else {
            assert(crate::text::matches_ci(l[0], "solution:"@[0]));
        }
        assert(false);
    }
}

proof fn lemma_blank_region_q_count(lines: Seq<Seq<char>>, i: int)
    requires
        0 <= i <= lines.len(),
    ensures
        q_count(lines, i) == q_count(lines, i + blank_run(lines, i)),
    decreases lines.len() - i,
{
    if i < lines.len() && blank_line(lines[i]) {
        lemma_blank_not_question(lines[i]);
        lemma_blank_region_q_count(lines, i + 1);
    }
}

/// A classified block line is never a numbered question line.
proof fn lemma_classified_not_question(l: Seq<char>)
    requires
        !(classify_line(l) is Unknown),
    ensures
        !question_line(l),
{
    if question_line(l) {
        crate::text::lemma_digit_run(l, 0);
        assert(is_digit_char(l[0]));
        if essay_line(l) {
            assert(l[0] == '_');
        }
        if upload_line(l) {
            assert(l[0] == '^');
        }
        assert(false);
    }
}

/// A parsed question block consumes exactly one numbered line: its own.
proof fn lemma_sp_question_q_count(lines: Seq<Seq<char>>, i: int)
    requires
        0 <= i < lines.len(),
        question_line(lines[i]),
    ensures
        sp_question(lines, i) matches Ok((q, e)) ==> q_count(lines, i) == 1 + q_count(lines, e),
{
    let j = i + 1;
    lemma_blank_run(lines, j);
    let p = j + blank_run(lines, j);
    if p < lines.len() && (sp_question(lines, i) is Ok) {
        lemma_sp_mc_choices_bounds(lines, j);
        lemma_sp_ma_choices_bounds(lines, j);
        lemma_sp_sa_answers_bounds(lines, j);
        lemma_sp_mc_q_count(lines, j);
        lemma_sp_ma_q_count(lines, j);
        lemma_sp_sa_q_count(lines, j);
        lemma_sp_extras_q_count(lines, sp_mc_choices(lines, j).1);
        lemma_sp_extras_q_count(lines, sp_ma_choices(lines, j).1);
        lemma_sp_extras_q_count(lines, sp_sa_answers(lines, j).1);
        lemma_sp_extras_q_count(lines, p + 1);
        lemma_blank_region_q_count(lines, j);
        lemma_classified_not_question(lines[p]);
    }
}

/// A successful parse yields exactly one question per numbered line.
proof fn lemma_sp_questions_count(lines: Seq<Seq<char>>, i: int)
    requires
        0 <= i <= lines.len(),
    ensures
        sp_questions(lines, i) matches Ok(qs) ==> qs.len() == q_count(lines, i),
    decreases lines.len() - i,
{
    if i < lines.len() {
        if question_line(lines[i]) {
            lemma_sp_question_bounds(lines, i);
            lemma_sp_question_q_count(lines, i);
            match sp_question(lines, i) {
                Ok((q, e)) => {
                    lemma_sp_questions_count(lines, e);
                },
                Err(_) => {},
            }
        } else {
            lemma_sp_questions_count(lines, i + 1);
        }
    }
}

/// For every input the parser accepts, the assessment's question count
/// equals the number of numbered question lines in the input.
pub proof fn lemma_parse_counts_blocks(input: Seq<char>)
    ensures
        sp_parse(input) matches Ok((t, qs)) ==> qs.len() == q_count(spec_lines(input), 0),
{
    lemma_sp_questions_count(spec_lines(input), 0);
}

/// A multiple-choice block whose correct markers do not number exactly one
/// always fails the parse with the count-mismatch message.
pub proof fn lemma_mc_count_mismatch(lines: Seq<Seq<char>>, i: int)
    requires
        0 <= i < lines.len(),
        question_line(lines[i]),
        ({
            let p = i + 1 + blank_run(lines, i + 1);
            p < lines.len() && classify_line(lines[p]) is MultipleChoice
        }),
        count_correct(sp_mc_choices(lines, i + 1).0) != 1,
    ensures
        sp_question(lines, i) == Result::<(QuestionData, int), ParseFailure>::Err(
            ParseFailure::Document(mc_count_message(count_correct(sp_mc_choices(lines, i + 1).0))),
        ),
{
    let j = i + 1;
    lemma_blank_run(lines, j);
    let p = j + blank_run(lines, j);
    lemma_mc_region_nonempty(lines, j, p);
}

/// Skipping the blank lines before a classified multiple-choice line, the
/// body parser reaches it, so the choice list is not empty.
proof fn lemma_mc_region_nonempty(lines: Seq<Seq<char>>, j: int, p: int)
    requires
        0 <= j <= p < lines.len(),
        forall|k: int| j <= k < p ==> blank_line(#[trigger] lines[k]),
        mc_correct_line(lines[p]) || mc_incorrect_line(lines[p]),
    ensures
        sp_mc_choices(lines, j).0.len() > 0,
    decreases p - j,
{
    if j < p {
        let l = lines[j];
        crate::text::lemma_space_run(l, 0);
        assert(!mc_correct_line(l) && !mc_incorrect_line(l) && !question_line(l)) by {
            if l.len() > 0 {
                assert(is_space_char(l[0]));
            }
            lemma_blank_not_question(l);
        }
        lemma_mc_region_nonempty(lines, j + 1, p);
    }
}

/// Skipping lines that open no question block leaves the scan unchanged.
proof fn lemma_sp_questions_skip(lines: Seq<Seq<char>>, j: int, i: int)
    requires
        0 <= j <= i <= lines.len(),
        forall|k: int| j <= k < i ==> !question_line(#[trigger] lines[k]),
    ensures
        sp_questions(lines, j) == sp_questions(lines, i),
    decreases i - j,
{
    if j < i {
        lemma_sp_questions_skip(lines, j + 1, i);
    }
}

/// The count-mismatch failure reaches the whole parse: where the first
/// numbered line of the document opens a multiple-choice block whose
/// correct markers do not number exactly one, the document fails to parse
/// with the count-mismatch message.
pub proof fn lemma_mc_count_mismatch_parse(input: Seq<char>, i: int)
    requires
        ({
            let lines = spec_lines(input);
            &&& 0 <= i < lines.len()
            &&& question_line(lines[i])
            &&& forall|k: int| 0 <= k < i ==> !question_line(#[trigger] lines[k])
            &&& ({
                let p = i + 1 + blank_run(lines, i + 1);
                p < lines.len() && classify_line(lines[p]) is MultipleChoice
            })
            &&& count_correct(sp_mc_choices(lines, i + 1).0) != 1
        }),
    ensures
        sp_parse(input) == Result::<(Option<Seq<char>>, Seq<QuestionData>), ParseFailure>::Err(
            ParseFailure::Document(
                mc_count_message(count_correct(sp_mc_choices(spec_lines(input), i + 1).0)),
            ),
        ),
{
    let lines = spec_lines(input);
    lemma_sp_questions_skip(lines, 0, i);
    lemma_mc_count_mismatch(lines, i);
}

/// The title precedence reaches the whole parse: where the first line of
/// the opening five that carries a `title:` prefix or opens with a number
/// sign stands at index `j`, a successful parse takes its title from that
/// line.
pub proof fn lemma_title_precedence_parse(input: Seq<char>, j: int)
    requires
        ({
            let lines = spec_lines(input);
            &&& 0 <= j < lines.len()
            &&& j < 5
            &&& (has_ci_prefix(lines[j], "title:"@) || (lines[j].len() > 0 && lines[j][0] == '#'))
            &&& forall|k: int|
                0 <= k < j ==> !(has_ci_prefix(#[trigger] lines[k], "title:"@) || (lines[k].len()
                    > 0 && lines[k][0] == '#'))
        }),
    ensures
        sp_parse(input) matches Ok((t, qs)) ==> t == Some(
            if has_ci_prefix(spec_lines(input)[j], "title:"@) {
                spec_trim(spec_lines(input)[j].skip(6))
            } else {
                spec_trim(spec_lines(input)[j].skip(hash_run(spec_lines(input)[j], 0)))
            },
        ),
{
    lemma_title_first_match(spec_lines(input), j);
}

/// The title is taken from the first of the opening five lines that
/// carries a `title:` prefix or opens with a number sign, whichever comes
/// first.
pub proof fn lemma_title_first_match(lines: Seq<Seq<char>>, j: int)
    requires
        0 <= j < lines.len(),
        j < 5,
        has_ci_prefix(lines[j], "title:"@) || (lines[j].len() > 0 && lines[j][0] == '#'),
        forall|k: int|
            0 <= k < j ==> !(has_ci_prefix(#[trigger] lines[k], "title:"@) || (lines[k].len() > 0
                && lines[k][0] == '#')),
    ensures
        sp_title(lines, 0) == Some(
            if has_ci_prefix(lines[j], "title:"@) {
                spec_trim(lines[j].skip(6))
            } else {
                spec_trim(lines[j].skip(hash_run(lines[j], 0)))
            },
        ),
{
    lemma_title_first_match_from(lines, 0, j);
}

proof fn lemma_title_first_match_from(lines: Seq<Seq<char>>, i: int, j: int)
    requires
        0 <= i <= j < lines.len(),
        j < 5,
        has_ci_prefix(lines[j], "title:"@) || (lines[j].len() > 0 && lines[j][0] == '#'),
        forall|k: int|
            i <= k < j ==> !(has_ci_prefix(#[trigger] lines[k], "title:"@) || (lines[k].len() > 0
                && lines[k][0] == '#')),
    ensures
        sp_title(lines, i) == Some(
            if has_ci_prefix(lines[j], "title:"@) {
                spec_trim(lines[j].skip(6))
            } else {
                spec_trim(lines[j].skip(hash_run(lines[j], 0)))
            },
        ),
    decreases j - i,
{
    if i < j {
        assert(!(has_ci_prefix(lines[i], "title:"@) || (lines[i].len() > 0 && lines[i][0]
            == '#')));
        lemma_title_first_match_from(lines, i + 1, j);
    }
}

} // verus!
