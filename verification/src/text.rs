//! Character-level text utilities: whitespace and digit classification,
//! runs, trimming, line splitting and decimal rendering of integers.

use vstd::prelude::*;

verus! {

/// The whitespace characters recognised by the authoring syntax
/// (the ASCII whitespace set).
pub open spec fn is_space_char(c: char) -> bool {
    c == ' ' || c == '\t' || c == '\n' || c == '\r' || c == '\u{b}' || c == '\u{c}'
}

pub open spec fn is_digit_char(c: char) -> bool {
    '0' <= c && c <= '9'
}

pub open spec fn is_letter_char(c: char) -> bool {
    ('a' <= c && c <= 'z') || ('A' <= c && c <= 'Z')
}

pub fn space_char(c: char) -> (r: bool)
    ensures
        r == is_space_char(c),
{
    c == ' ' || c == '\t' || c == '\n' || c == '\r' || c == '\u{b}' || c == '\u{c}'
}

pub fn digit_char(c: char) -> (r: bool)
    ensures
        r == is_digit_char(c),
{
    '0' <= c && c <= '9'
}

pub fn letter_char(c: char) -> (r: bool)
    ensures
        r == is_letter_char(c),
{
    ('a' <= c && c <= 'z') || ('A' <= c && c <= 'Z')
}

/// Length of the run of whitespace characters starting at `i`.
pub open spec fn space_run(s: Seq<char>, i: int) -> int
    decreases s.len() - i,
{
    if i < 0 || i >= s.len() || !is_space_char(s[i]) {
        0
    } else {
        1 + space_run(s, i + 1)
    }
}

/// Length of the run of decimal digits starting at `i`.
pub open spec fn digit_run(s: Seq<char>, i: int) -> int
    decreases s.len() - i,
{
    if i < 0 || i >= s.len() || !is_digit_char(s[i]) {
        0
    } else {
        1 + digit_run(s, i + 1)
    }
}

pub proof fn lemma_space_run(s: Seq<char>, i: int)
    requires
        0 <= i <= s.len(),
    ensures
        0 <= space_run(s, i),
        i + space_run(s, i) <= s.len(),
        forall|j: int| i <= j < i + space_run(s, i) ==> is_space_char(#[trigger] s[j]),
        i + space_run(s, i) == s.len() || !is_space_char(s[i + space_run(s, i)]),
    decreases s.len() - i,
{
    if i < s.len() && is_space_char(s[i]) {
        lemma_space_run(s, i + 1);
    }
}

pub proof fn lemma_digit_run(s: Seq<char>, i: int)
    requires
        0 <= i <= s.len(),
    ensures
        0 <= digit_run(s, i),
        i + digit_run(s, i) <= s.len(),
        forall|j: int| i <= j < i + digit_run(s, i) ==> is_digit_char(#[trigger] s[j]),
        i + digit_run(s, i) == s.len() || !is_digit_char(s[i + digit_run(s, i)]),
    decreases s.len() - i,
{
    if i < s.len() && is_digit_char(s[i]) {
        lemma_digit_run(s, i + 1);
    }
}

/// Computes `space_run(s@, i)`.
pub fn space_run_at(s: &str, i: usize) -> (r: usize)
    requires
        i <= s@.len(),
    ensures
        r == space_run(s@, i as int),
        i + r <= s@.len(),
{
    let n = s.unicode_len();
    let mut j = i;
    while j < n && space_char(s.get_char(j))
        invariant
            n == s@.len(),
            i <= j <= n,
            space_run(s@, i as int) == j - i + space_run(s@, j as int),
        decreases n - j,
    {
        proof {
            reveal_with_fuel(space_run, 2);
        }
        j = j + 1;
    }
    proof {
        lemma_space_run(s@, j as int);
    }
    j - i
}

/// Computes `digit_run(s@, i)`.
pub fn digit_run_at(s: &str, i: usize) -> (r: usize)
    requires
        i <= s@.len(),
    ensures
        r == digit_run(s@, i as int),
        i + r <= s@.len(),
{
    let n = s.unicode_len();
    let mut j = i;
    while j < n && digit_char(s.get_char(j))
        invariant
            n == s@.len(),
            i <= j <= n,
            digit_run(s@, i as int) == j - i + digit_run(s@, j as int),
        decreases n - j,
    {
        proof {
            reveal_with_fuel(digit_run, 2);
        }
        j = j + 1;
    }
    proof {
        lemma_digit_run(s@, j as int);
    }
    j - i
}

/// Length of the run of whitespace characters at the end of `s`.
pub open spec fn trailing_space_run(s: Seq<char>) -> int
    decreases s.len(),
{
    if s.len() == 0 || !is_space_char(s[s.len() - 1]) {
        0
    } else {
        1 + trailing_space_run(s.drop_last())
    }
}

pub proof fn lemma_trailing_space_run(s: Seq<char>)
    ensures
        0 <= trailing_space_run(s) <= s.len(),
        forall|j: int| s.len() - trailing_space_run(s) <= j < s.len() ==> is_space_char(#[trigger] s[j]),
        trailing_space_run(s) == s.len() || !is_space_char(s[s.len() - trailing_space_run(s) - 1]),
    decreases s.len(),
{
    if s.len() > 0 && is_space_char(s[s.len() - 1]) {
        lemma_trailing_space_run(s.drop_last());
        assert forall|j: int| s.len() - trailing_space_run(s) <= j < s.len() implies is_space_char(
            s[j],
        ) by {
            if j < s.len() - 1 {
                assert(is_space_char(s.drop_last()[j]));
            }
        }
    }
}

/// `s` with leading and trailing whitespace removed.
pub open spec fn spec_trim(s: Seq<char>) -> Seq<char> {
    if space_run(s, 0) == s.len() {
        Seq::empty()
    } else {
        s.subrange(space_run(s, 0), s.len() - trailing_space_run(s))
    }
}

pub proof fn lemma_trim_bounds(s: Seq<char>)
    requires
        space_run(s, 0) < s.len(),
    ensures
        space_run(s, 0) + trailing_space_run(s) < s.len(),
{
    lemma_space_run(s, 0);
    lemma_trailing_space_run(s);
    let a = space_run(s, 0);
    let t = trailing_space_run(s);
    if a + t >= s.len() {
        assert(s.len() - t <= a < s.len());
        assert(is_space_char(s[a]));
    }
}

/// Computes `spec_trim(s@)` as an owned string.
pub fn trim_str(s: &str) -> (r: String)
    ensures
        r@ == spec_trim(s@),
{
    let n = s.unicode_len();
    let a = space_run_at(s, 0);
    if a == n {
        return String::new();
    }
    proof {
        lemma_trim_bounds(s@);
        assert(s@.take(n as int) =~= s@);
    }
    let mut e = n;
    while e > a && space_char(s.get_char(e - 1))
        invariant
            n == s@.len(),
            a < n,
            a <= e <= n,
            trailing_space_run(s@) == n - e + trailing_space_run(s@.take(e as int)),
        decreases e,
    {
        proof {
            assert(s@.take(e as int).drop_last() =~= s@.take(e - 1));
            assert(s@.take(e as int)[e - 1] == s@[e - 1]);
        }
        e = e - 1;
    }
    proof {
        if e == a {
            lemma_space_run(s@, 0);
            lemma_trailing_space_run(s@.take(a as int));
            lemma_trailing_space_run(s@);
            assert(s@.len() - trailing_space_run(s@) <= a < s@.len());
            assert(is_space_char(s@[a as int]));
            assert(false);
        }
        assert(s@.take(e as int)[e - 1] == s@[e - 1]);
        assert(trailing_space_run(s@.take(e as int)) == 0);
    }
    s.substring_char(a, e).to_owned()
}

/// `s` begins with `p`.
pub open spec fn s_starts_with(s: Seq<char>, p: Seq<char>) -> bool {
    p.len() <= s.len() && s.take(p.len() as int) == p
}

/// Tests `s_starts_with(s@, p@)`.
pub fn str_starts_with(s: &str, p: &str) -> (r: bool)
    ensures
        r == s_starts_with(s@, p@),
{
    let np = p.unicode_len();
    let ns = s.unicode_len();
    if np > ns {
        return false;
    }
    let mut i: usize = 0;
    while i < np
        invariant
            np == p@.len() <= s@.len(),
            ns == s@.len(),
            0 <= i <= np,
            forall|j: int| 0 <= j < i ==> s@[j] == p@[j],
        decreases np - i,
    {
        if s.get_char(i) != p.get_char(i) {
            proof {
                assert(s@.take(np as int)[i as int] != p@[i as int]);
            }
            return false;
        }
        i = i + 1;
    }
    proof {
        assert(s@.take(np as int) =~= p@);
    }
    true
}

/// Character-wise ASCII case-insensitive match of `c` against a lowercase
/// pattern character `l`.
pub open spec fn matches_ci(c: char, l: char) -> bool {
    c == l || ('A' <= c && c <= 'Z' && (c as u32) + 32 == l as u32)
}

/// `s` begins with the pattern `p` (given in lowercase), ASCII
/// case-insensitively.
pub open spec fn has_ci_prefix(s: Seq<char>, p: Seq<char>) -> bool {
    p.len() <= s.len() && forall|i: int| 0 <= i < p.len() ==> matches_ci(s[i], #[trigger] p[i])
}

/// Tests `has_ci_prefix(s@, p@)`; `p` must be a lowercase pattern.
pub fn has_prefix_ci(s: &str, p: &str) -> (r: bool)
    ensures
        r == has_ci_prefix(s@, p@),
{
    let np = p.unicode_len();
    let ns = s.unicode_len();
    if np > ns {
        return false;
    }
    let mut i: usize = 0;
    while i < np
        invariant
            np == p@.len() <= s@.len(),
            ns == s@.len(),
            0 <= i <= np,
            forall|j: int| 0 <= j < i ==> matches_ci(s@[j], #[trigger] p@[j]),
        decreases np - i,
    {
        let c = s.get_char(i);
        let l = p.get_char(i);
        let ok = c == l || ('A' <= c && c <= 'Z' && (c as u32) + 32 == l as u32);
        if !ok {
            return false;
        }
        i = i + 1;
    }
    true
}

/// Index of the first line feed in `s`, or `s.len()` if there is none.
pub open spec fn line_break(s: Seq<char>) -> int
    decreases s.len(),
{
    if s.len() == 0 {
        0
    } else if s[0] == '\n' {
        0
    } else {
        1 + line_break(s.skip(1))
    }
}

pub proof fn lemma_line_break(s: Seq<char>)
    ensures
        0 <= line_break(s) <= s.len(),
        forall|j: int| 0 <= j < line_break(s) ==> #[trigger] s[j] != '\n',
        line_break(s) == s.len() || s[line_break(s)] == '\n',
    decreases s.len(),
{
    if s.len() > 0 && s[0] != '\n' {
        lemma_line_break(s.skip(1));
        assert forall|j: int| 0 <= j < line_break(s) implies #[trigger] s[j] != '\n' by {
            if j > 0 {
                assert(s.skip(1)[j - 1] != '\n');
            }
        }
    }
}

/// A line with a trailing carriage return removed.
pub open spec fn strip_cr(l: Seq<char>) -> Seq<char> {
    if l.len() > 0 && l[l.len() - 1] == '\r' {
        l.drop_last()
    } else {
        l
    }
}

/// The logical lines of `s`: segments between line feeds, each stripped of
/// a trailing carriage return when a line feed followed it; a final line
/// feed does not open an empty line, and a final segment without one keeps
/// any carriage return it ends with.
pub open spec fn spec_lines(s: Seq<char>) -> Seq<Seq<char>>
    decreases s.len(),
        via spec_lines_decreases
{
    if s.len() == 0 {
        Seq::empty()
    } else {
        let k = line_break(s);
        if k == s.len() {
            seq![s]
        } else {
            seq![strip_cr(s.take(k))] + spec_lines(s.skip(k + 1))
        }
    }
}

#[via_fn]
proof fn spec_lines_decreases(s: Seq<char>) {
    lemma_line_break(s);
}

/// Splits `s` into its logical lines.
pub fn split_lines(s: &str) -> (r: Vec<String>)
    ensures
        r@.len() == spec_lines(s@).len(),
        forall|i: int| 0 <= i < r@.len() ==> r@[i]@ == spec_lines(s@)[i],
{
    let n = s.unicode_len();
    let mut r: Vec<String> = Vec::new();
    let mut i: usize = 0;
    proof {
        assert(s@.skip(0) =~= s@);
    }
    while i < n
        invariant
            n == s@.len(),
            0 <= i <= n,
            spec_lines(s@) =~= r@.map_values(|l: String| l@) + spec_lines(s@.skip(i as int)),
        decreases n - i,
    {
        let ghost rest = s@.skip(i as int);
        let mut j = i;
        while j < n && s.get_char(j) != '\n'
            invariant
                n == s@.len(),
                i <= j <= n,
                forall|t: int| i <= t < j ==> #[trigger] s@[t] != '\n',
            decreases n - j,
        {
            j = j + 1;
        }
        proof {
            lemma_line_break(rest);
            assert forall|t: int| 0 <= t < j - i implies #[trigger] rest[t] != '\n' by {
                assert(s@[i + t] != '\n');
            }
            if j < n {
                assert(rest[j - i] == s@[j as int]);
            }
            assert(line_break(rest) == j - i) by {
                if line_break(rest) < j - i {
                    assert(rest[line_break(rest)] != '\n');
                }
            }
        }
        // the segment [i, j), minus a carriage return before a line feed
        let e = if j < n && j > i && s.get_char(j - 1) == '\r' {
            j - 1
        } else {
            j
        };
        let line = s.substring_char(i, e).to_owned();
        proof {
            if j < n {
                let seg = rest.take(line_break(rest));
                assert(seg =~= s@.subrange(i as int, j as int));
                assert(strip_cr(seg) =~= s@.subrange(i as int, e as int));
            } else {
                assert(rest =~= s@.subrange(i as int, e as int));
            }
        }
        let ghost prev = r@.map_values(|l: String| l@);
        r.push(line);
        proof {
            assert(r@.map_values(|l: String| l@) =~= prev.push(line@));
        }
        if j < n {
            proof {
                assert(rest.skip(j - i + 1) =~= s@.skip(j + 1));
            }
            i = j + 1;
        } else {
            proof {
                assert(s@.skip(n as int) =~= Seq::<char>::empty());
            }
            i = n;
        }
    }
    proof {
        assert(s@.skip(n as int) =~= Seq::<char>::empty());
        assert(spec_lines(s@) =~= r@.map_values(|l: String| l@));
    }
    r
}

pub open spec fn digit_char_of(d: int) -> char {
    if d == 0 {
        '0'
    } else if d == 1 {
        '1'
    } else if d == 2 {
        '2'
    } else if d == 3 {
        '3'
    } else if d == 4 {
        '4'
    } else if d == 5 {
        '5'
    } else if d == 6 {
        '6'
    } else if d == 7 {
        '7'
    } else if d == 8 {
        '8'
    } else {
        '9'
    }
}

/// The decimal digits of `n`, most significant first.
pub open spec fn spec_u64_digits(n: int) -> Seq<char>
    decreases n,
{
    if n < 10 {
        seq![digit_char_of(n)]
    } else {
        spec_u64_digits(n / 10).push(digit_char_of(n % 10))
    }
}

fn digit_str(d: u64) -> (r: &'static str)
    requires
        d < 10,
    ensures
        r@ =~= seq![digit_char_of(d as int)],
{
    let r: &'static str = match d {
        0 => "0",
        1 => "1",
        2 => "2",
        3 => "3",
        4 => "4",
        5 => "5",
        6 => "6",
        7 => "7",
        8 => "8",
        _ => "9",
    };
    proof {
        reveal_strlit("0");
        reveal_strlit("1");
        reveal_strlit("2");
        reveal_strlit("3");
        reveal_strlit("4");
        reveal_strlit("5");
        reveal_strlit("6");
        reveal_strlit("7");
        reveal_strlit("8");
        reveal_strlit("9");
    }
    r
}

/// Renders `n` in decimal.
pub fn u64_to_string(n: u64) -> (r: String)
    ensures
        r@ == spec_u64_digits(n as int),
    decreases n,
{
    if n < 10 {
        digit_str(n).to_owned()
    } else {
        let mut s = u64_to_string(n / 10);
        s.append(digit_str(n % 10));
        proof {
            assert(s@ =~= spec_u64_digits(n as int));
        }
        s
    }
}

/// A character that may stand in a generated file name or identifier.
pub open spec fn is_safe_name_char(c: char) -> bool {
    ('a' <= c && c <= 'z') || ('A' <= c && c <= 'Z') || ('0' <= c && c <= '9') || c == '-' || c
        == '_'
}

/// How one character is sanitised: safe characters stay, a space becomes an
/// underscore, anything else becomes a hyphen.
pub open spec fn sanitize_char(c: char) -> char {
    if is_safe_name_char(c) {
        c
    } else if c == ' ' {
        '_'
    } else {
        '-'
    }
}

/// A hyphen or underscore, trimmed from the ends of a sanitised name.
pub open spec fn is_name_mark(c: char) -> bool {
    c == '-' || c == '_'
}

/// Length of the run of hyphens and underscores starting at `i`.
pub open spec fn mark_run(s: Seq<char>, i: int) -> int
    decreases s.len() - i,
{
    if i < 0 || i >= s.len() || !is_name_mark(s[i]) {
        0
    } else {
        1 + mark_run(s, i + 1)
    }
}

pub proof fn lemma_mark_run(s: Seq<char>, i: int)
    requires
        0 <= i <= s.len(),
    ensures
        0 <= mark_run(s, i),
        i + mark_run(s, i) <= s.len(),
        forall|j: int| i <= j < i + mark_run(s, i) ==> is_name_mark(#[trigger] s[j]),
        i + mark_run(s, i) == s.len() || !is_name_mark(s[i + mark_run(s, i)]),
    decreases s.len() - i,
{
    if i < s.len() && is_name_mark(s[i]) {
        lemma_mark_run(s, i + 1);
    }
}

/// Length of the run of hyphens and underscores at the end of `s`.
pub open spec fn trailing_mark_run(s: Seq<char>) -> int
    decreases s.len(),
{
    if s.len() == 0 || !is_name_mark(s[s.len() - 1]) {
        0
    } else {
        1 + trailing_mark_run(s.drop_last())
    }
}

pub proof fn lemma_trailing_mark_run(s: Seq<char>)
    ensures
        0 <= trailing_mark_run(s) <= s.len(),
        forall|j: int|
            s.len() - trailing_mark_run(s) <= j < s.len() ==> is_name_mark(#[trigger] s[j]),
        trailing_mark_run(s) == s.len() || !is_name_mark(s[s.len() - trailing_mark_run(s) - 1]),
    decreases s.len(),
{
    if s.len() > 0 && is_name_mark(s[s.len() - 1]) {
        lemma_trailing_mark_run(s.drop_last());
        assert forall|j: int| s.len() - trailing_mark_run(s) <= j < s.len() implies is_name_mark(
            s[j],
        ) by {
            if j < s.len() - 1 {
                assert(is_name_mark(s.drop_last()[j]));
            }
        }
    }
}

/// A name sanitised for use as a file name or identifier: each character
/// mapped by [`sanitize_char`], hyphens and underscores trimmed from both
/// ends, and a fixed fallback where nothing remains.
pub open spec fn spec_sanitized(s: Seq<char>) -> Seq<char> {
    let mapped = Seq::new(s.len(), |i: int| sanitize_char(s[i]));
    if mark_run(mapped, 0) == mapped.len() {
        "quiz"@
    } else {
        mapped.subrange(mark_run(mapped, 0), mapped.len() - trailing_mark_run(mapped))
    }
}

pub proof fn lemma_sanitize_bounds(mapped: Seq<char>)
    requires
        mark_run(mapped, 0) < mapped.len(),
    ensures
        mark_run(mapped, 0) + trailing_mark_run(mapped) < mapped.len(),
{
    lemma_mark_run(mapped, 0);
    lemma_trailing_mark_run(mapped);
    let a = mark_run(mapped, 0);
    let t = trailing_mark_run(mapped);
    if a + t >= mapped.len() {
        assert(mapped.len() - t <= a < mapped.len());
        assert(is_name_mark(mapped[a]));
    }
}

/// Every sanitised name is non-empty and holds only safe characters.
pub proof fn lemma_sanitized_safe(s: Seq<char>)
    ensures
        spec_sanitized(s).len() > 0,
        forall|i: int|
            0 <= i < spec_sanitized(s).len() ==> is_safe_name_char(#[trigger] spec_sanitized(s)[i]),
{
    reveal_strlit("quiz");
    let mapped = Seq::new(s.len(), |i: int| sanitize_char(s[i]));
    if mark_run(mapped, 0) == mapped.len() {
        assert("quiz"@.len() == 4);
    } else {
        lemma_mark_run(mapped, 0);
        lemma_sanitize_bounds(mapped);
        lemma_trailing_mark_run(mapped);
    }
}

/// Computes `spec_sanitized(s@)`, per the sanitising rules above.
pub fn sanitize_filename(s: &str) -> (r: String)
    ensures
        r@ == spec_sanitized(s@),
{
    let n = s.unicode_len();
    let mut mapped = String::new();
    let mut i: usize = 0;
    while i < n
        invariant
            n == s@.len(),
            0 <= i <= n,
            mapped@ =~= Seq::new(i as nat, |k: int| sanitize_char(s@[k])),
        decreases n - i,
    {
        let c = s.get_char(i);
        let safe = ('a' <= c && c <= 'z') || ('A' <= c && c <= 'Z') || ('0' <= c && c <= '9') || c
            == '-' || c == '_';
        if safe {
            mapped.append(s.substring_char(i, i + 1));
            proof {
                assert(s@.subrange(i as int, i + 1) =~= seq![s@[i as int]]);
                assert(mapped@ =~= Seq::new((i + 1) as nat, |k: int| sanitize_char(s@[k])));
            }
        } else if c == ' ' {
            mapped.append("_");
            proof {
                reveal_strlit("_");
                assert(mapped@ =~= Seq::new((i + 1) as nat, |k: int| sanitize_char(s@[k])));
            }
        } else {
            mapped.append("-");
            proof {
                reveal_strlit("-");
                assert(mapped@ =~= Seq::new((i + 1) as nat, |k: int| sanitize_char(s@[k])));
            }
        }
        i = i + 1;
    }
    let m = mapped.as_str();
    let mn = m.unicode_len();
    let mut a: usize = 0;
    while a < mn && (m.get_char(a) == '-' || m.get_char(a) == '_')
        invariant
            mn == m@.len(),
            0 <= a <= mn,
            mark_run(m@, 0) == a + mark_run(m@, a as int),
        decreases mn - a,
    {
        proof {
            reveal_with_fuel(mark_run, 2);
        }
        a = a + 1;
    }
    proof {
        lemma_mark_run(m@, a as int);
    }
    if a == mn {
        let fallback = String::from_str("quiz");
        return fallback;
    }
    proof {
        lemma_sanitize_bounds(m@);
        assert(m@.take(mn as int) =~= m@);
    }
    let mut e = mn;
    while e > a && (m.get_char(e - 1) == '-' || m.get_char(e - 1) == '_')
        invariant
            mn == m@.len(),
            a < mn,
            a <= e <= mn,
            trailing_mark_run(m@) == mn - e + trailing_mark_run(m@.take(e as int)),
        decreases e,
    {
        proof {
            assert(m@.take(e as int).drop_last() =~= m@.take(e - 1));
            assert(m@.take(e as int)[e - 1] == m@[e - 1]);
        }
        e = e - 1;
    }
    proof {
        if e == a {
            lemma_mark_run(m@, 0);
            lemma_trailing_mark_run(m@.take(a as int));
            lemma_trailing_mark_run(m@);
            assert(m@.len() - trailing_mark_run(m@) <= a < m@.len());
            assert(is_name_mark(m@[a as int]));
            assert(false);
        }
        assert(m@.take(e as int)[e - 1] == m@[e - 1]);
        assert(trailing_mark_run(m@.take(e as int)) == 0);
    }
    m.substring_char(a, e).to_owned()
}

} // verus!
