//! Questions: decoding them from a model's JSON reply, dropping incomplete
//! ones, and removing the answer labels that models add on their own.
use vstd::prelude::*;

use crate::json::{as_text, find_array, find_question_array, json_parse, parse_json, parse_result, Json, JsonNumber};
use crate::text::{chars_of, is_white, is_whitespace, str_equal, string_of, string_of_range, to_owned, trim_start, white_run_end};

verus! {

/// One multiple-choice question with an explanation for each answer.
#[derive(Debug)]
pub struct Question {
    pub question: String,
    pub answers: Vec<String>,
    pub correct_index: usize,
    pub explanations: Vec<String>,
}

/// The mathematical content of a [`Question`].
pub struct QuestionView {
    pub question: Seq<char>,
    pub answers: Seq<Seq<char>>,
    pub correct_index: usize,
    pub explanations: Seq<Seq<char>>,
}

/// The characters of each string of a list.
pub open spec fn texts(v: Seq<String>) -> Seq<Seq<char>> {
    v.map_values(|s: String| s@)
}

impl View for Question {
    type V = QuestionView;

    open spec fn view(&self) -> QuestionView {
        QuestionView {
            question: self.question@,
            answers: texts(self.answers@),
            correct_index: self.correct_index,
            explanations: texts(self.explanations@),
        }
    }
}

/// The contents of a list of questions.
pub open spec fn question_views(v: Seq<Question>) -> Seq<QuestionView> {
    v.map_values(|q: Question| q@)
}

// ---------------------------------------------------------------------------
// Decoding a question the way the derived deserializer does
// ---------------------------------------------------------------------------

/// A JSON array of strings, as a list of texts.
pub open spec fn text_list(v: Json) -> Option<Seq<Seq<char>>> {
    match v {
        Json::Array(a) => if forall|i: int| 0 <= i < a@.len() ==> (#[trigger] a@[i]) is Str {
            Some(Seq::new(a@.len(), |i: int| as_text(a@[i]).unwrap()))
        } else {
            None
        },
        _ => None,
    }
}

/// A JSON number read as a `usize`: an integer from 0 to `usize::MAX`.
pub open spec fn index_value(v: Json) -> Option<usize> {
    match v {
        Json::Number(JsonNumber::PosInt(u)) => if u <= usize::MAX {
            Some(u as usize)
        } else {
            None
        },
        Json::Number(JsonNumber::NegInt(i)) => if 0 <= i && i <= usize::MAX {
            Some(i as usize)
        } else {
            None
        },
        _ => None,
    }
}

/// `es[i]` is the one member named `key`.
pub open spec fn unique_member(es: Seq<(String, Json)>, key: Seq<char>, i: int) -> bool {
    &&& 0 <= i < es.len()
    &&& es[i].0@ == key
    &&& forall|j: int| 0 <= j < es.len() && j != i ==> (#[trigger] es[j]).0@ != key
}

/// The value of the member named `key` when exactly one member has that name.
pub open spec fn sole_member(es: Seq<(String, Json)>, key: Seq<char>) -> Option<Json> {
    if exists|i: int| unique_member(es, key, i) {
        Some(es[choose|i: int| unique_member(es, key, i)].1)
    } else {
        None
    }
}

/// A question made of the four field values, when each has the right type.
pub open spec fn decode_fields(q: Option<Json>, a: Option<Json>, c: Option<Json>, e: Option<Json>) -> Option<
    QuestionView,
> {
    match (q, a, c, e) {
        (Some(q), Some(a), Some(c), Some(e)) => match (
            as_text(q),
            text_list(a),
            index_value(c),
            text_list(e),
        ) {
            (Some(q), Some(a), Some(c), Some(e)) => Some(
                QuestionView { question: q, answers: a, correct_index: c, explanations: e },
            ),
            _ => None,
        },
        _ => None,
    }
}

/// What deserialising `v` as a question gives: an object with exactly one
/// member for each of `question`, `answers`, `correct_index` and
/// `explanations` (other members ignored), or an array of exactly those four
/// values in that order.
pub open spec fn decode_question(v: Json) -> Option<QuestionView> {
    match v {
        Json::Object(es) => decode_fields(
            sole_member(es@, "question"@),
            sole_member(es@, "answers"@),
            sole_member(es@, "correct_index"@),
            sole_member(es@, "explanations"@),
        ),
        Json::Array(a) => if a@.len() == 4 {
            decode_fields(Some(a@[0]), Some(a@[1]), Some(a@[2]), Some(a@[3]))
        } else {
            None
        },
        _ => None,
    }
}

/// The index of the one member of `es` named `key`, if exactly one is.
fn sole_member_index(es: &Vec<(String, Json)>, key: &str) -> (r: Option<usize>)
    ensures
        match r {
            Some(i) => unique_member(es@, key@, i as int),
            None => !exists|i: int| unique_member(es@, key@, i),
        },
{
    let mut found: Option<usize> = None;
    let mut i: usize = 0;
    while i < es.len()
        invariant
            i <= es@.len(),
            match found {
                Some(k) => k < i && es@[k as int].0@ == key@ && forall|j: int|
                    0 <= j < i && j != k ==> (#[trigger] es@[j]).0@ != key@,
                None => forall|j: int| 0 <= j < i ==> (#[trigger] es@[j]).0@ != key@,
            },
        decreases es.len() - i,
    {
        if str_equal(es[i].0.as_str(), key) {
            match found {
                Some(k) => {
                    assert forall|m: int| !unique_member(es@, key@, m) by {
                        if unique_member(es@, key@, m) {
                            if m != k as int {
                                assert(es@[k as int].0@ == key@);
                            } else {
                                assert(es@[i as int].0@ == key@);
                            }
                        }
                    }
                    return None;
                },
                None => {
                    found = Some(i);
                },
            }
        }
        i = i + 1;
    }
    match found {
        Some(k) => Some(k),
        None => {
            assert forall|m: int| !unique_member(es@, key@, m) by {
                if unique_member(es@, key@, m) {
                    assert(es@[m].0@ == key@);
                }
            }
            None
        },
    }
}

/// The value of the one member named `key`, if exactly one is.
fn sole_member_value<'a>(es: &'a Vec<(String, Json)>, key: &str) -> (r: Option<&'a Json>)
    ensures
        match r {
            Some(x) => sole_member(es@, key@) == Some(*x),
            None => sole_member(es@, key@) is None,
        },
{
    match sole_member_index(es, key) {
        Some(i) => {
            proof {
                let c = choose|m: int| unique_member(es@, key@, m);
                assert(unique_member(es@, key@, c));
                assert(c == i as int);
            }
            Some(&es[i].1)
        },
        None => None,
    }
}

/// The text of a JSON string.
fn text_value(v: &Json) -> (r: Option<String>)
    ensures
        match r {
            Some(s) => as_text(*v) == Some(s@),
            None => as_text(*v) is None,
        },
{
    match v {
        Json::Str(s) => Some(s.clone()),
        _ => None,
    }
}

/// A JSON array of strings, as a list of owned strings.
fn text_list_value(v: &Json) -> (r: Option<Vec<String>>)
    ensures
        match r {
            Some(l) => text_list(*v) == Some(texts(l@)),
            None => text_list(*v) is None,
        },
{
    match v {
        Json::Array(a) => {
            let mut out: Vec<String> = Vec::new();
            let mut i: usize = 0;
            while i < a.len()
                invariant
                    i <= a@.len(),
                    *v == Json::Array(*a),
                    out@.len() == i,
                    forall|j: int| 0 <= j < i ==> (#[trigger] a@[j]) is Str,
                    forall|j: int| 0 <= j < i ==> as_text(a@[j]) == Some((#[trigger] out@[j])@),
                decreases a.len() - i,
            {
                match &a[i] {
                    Json::Str(s) => {
                        out.push(s.clone());
                    },
                    _ => {
                        assert(!(a@[i as int] is Str));
                        return None;
                    },
                }
                i = i + 1;
            }
            assert(texts(out@) =~= Seq::new(a@.len(), |j: int| as_text(a@[j]).unwrap()));
            Some(out)
        },
        _ => None,
    }
}

/// A JSON number read as a `usize`.
fn index_value_of(v: &Json) -> (r: Option<usize>)
    ensures
        r == index_value(*v),
{
    match v {
        Json::Number(JsonNumber::PosInt(u)) => {
            if *u <= usize::MAX as u64 {
                Some(*u as usize)
            } else {
                None
            }
        },
        Json::Number(JsonNumber::NegInt(i)) => {
            if 0 <= *i && (*i as u64) <= usize::MAX as u64 {
                Some(*i as usize)
            } else {
                None
            }
        },
        _ => None,
    }
}

/// The value behind an optional reference.
pub open spec fn deref_opt(o: Option<&Json>) -> Option<Json> {
    match o {
        Some(x) => Some(*x),
        None => None,
    }
}

fn decode_fields_of(q: Option<&Json>, a: Option<&Json>, c: Option<&Json>, e: Option<&Json>) -> (r:
    Option<Question>)
    ensures
        match r {
            Some(x) => decode_fields(
                deref_opt(q),
                deref_opt(a),
                deref_opt(c),
                deref_opt(e),
            ) == Some(x@),
            None => decode_fields(
                deref_opt(q),
                deref_opt(a),
                deref_opt(c),
                deref_opt(e),
            ) is None,
        },
{
    match (q, a, c, e) {
        (Some(q), Some(a), Some(c), Some(e)) => {
            let question = text_value(q);
            let answers = text_list_value(a);
            let index = index_value_of(c);
            let explanations = text_list_value(e);
            match (question, answers, index, explanations) {
                (Some(question), Some(answers), Some(correct_index), Some(explanations)) => {
                    Some(Question { question, answers, correct_index, explanations })
                },
                _ => None,
            }
        },
        _ => None,
    }
}

/// Deserialises one JSON value as a question, as the derived deserializer
/// does (see `decode_question`).
pub fn question_from_json(v: &Json) -> (r: Option<Question>)
    ensures
        match r {
            Some(q) => decode_question(*v) == Some(q@),
            None => decode_question(*v) is None,
        },
{
    match v {
        Json::Object(es) => {
            let q = sole_member_value(es, "question");
            let a = sole_member_value(es, "answers");
            let c = sole_member_value(es, "correct_index");
            let e = sole_member_value(es, "explanations");
            decode_fields_of(q, a, c, e)
        },
        Json::Array(items) => {
            if items.len() == 4 {
                decode_fields_of(Some(&items[0]), Some(&items[1]), Some(&items[2]), Some(&items[3]))
            } else {
                None
            }
        },
        _ => None,
    }
}

// ---------------------------------------------------------------------------
// Answer labels
// ---------------------------------------------------------------------------

/// `char::to_ascii_uppercase`.
pub open spec fn ascii_upper(c: char) -> char {
    if 'a' <= c && c <= 'z' {
        ((c as u32) - 32) as char
    } else {
        c
    }
}

/// The punctuation that marks a letter as an answer label.
pub open spec fn is_label_mark(c: char) -> bool {
    c == '.' || c == ':' || c == ')' || c == '-' || c == '\u{2013}' || c == '\u{2014}'
}

/// `s` without a leading answer label: after leading whitespace, a letter
/// A to D (either case) followed by label punctuation is dropped together
/// with the whitespace after it; B, C or D followed by whitespace is dropped
/// the same way; anything else, including a bare leading "A " (an article),
/// leaves `s` as it is.
pub open spec fn strip_label(s: Seq<char>) -> Seq<char> {
    let t = trim_start(s);
    if t.len() == 0 {
        s
    } else {
        let up = ascii_upper(t[0]);
        if !('A' <= up && up <= 'D') {
            s
        } else {
            let rest = t.drop_first();
            if rest.len() > 0 && is_label_mark(rest[0]) {
                trim_start(rest.drop_first())
            } else if up != 'A' && rest.len() > 0 && is_white(rest[0]) {
                trim_start(rest)
            } else {
                s
            }
        }
    }
}

fn to_ascii_upper(c: char) -> (r: char)
    ensures
        r == ascii_upper(c),
{
    if 'a' <= c && c <= 'z' {
        let b: u8 = c as u8;
        ((b - 32) as u8) as char
    } else {
        c
    }
}

fn is_label_mark_char(c: char) -> (r: bool)
    ensures
        r == is_label_mark(c),
{
    c == '.' || c == ':' || c == ')' || c == '-' || c == '\u{2013}' || c == '\u{2014}'
}

/// Strips a redundant leading letter label that some models put before
/// answers and explanations (such as "B provides connectivity..." or
/// "C. is a physical...") although the app shows that letter itself. A bare
/// leading "A " is kept, since it is usually the English article.
pub fn strip_label_prefix(s: &str) -> (r: String)
    ensures
        r@ == strip_label(s@),
{
    let cs = chars_of(s);
    assert(cs@.skip(0) =~= cs@);
    let k = white_run_end(&cs, 0);
    if k == cs.len() {
        return to_owned(s);
    }
    let ghost t = cs@.skip(k as int);
    assert(t[0] == cs@[k as int]);
    let up = to_ascii_upper(cs[k]);
    if !('A' <= up && up <= 'D') {
        return to_owned(s);
    }
    assert(t.drop_first() =~= cs@.skip(k + 1));
    if k + 1 < cs.len() && is_label_mark_char(cs[k + 1]) {
        assert(t.drop_first().drop_first() =~= cs@.skip(k + 2));
        let m = white_run_end(&cs, k + 2);
        assert(cs@.skip(m as int) =~= cs@.subrange(m as int, cs@.len() as int));
        return string_of_range(&cs, m, cs.len());
    }
    if up != 'A' && k + 1 < cs.len() && is_whitespace(cs[k + 1]) {
        let m = white_run_end(&cs, k + 1);
        assert(cs@.skip(m as int) =~= cs@.subrange(m as int, cs@.len() as int));
        return string_of_range(&cs, m, cs.len());
    }
    to_owned(s)
}

/// Stripping a label leaves a suffix of the text.
pub proof fn strip_label_gives_suffix(s: Seq<char>)
    ensures
        exists|k: int| 0 <= k <= s.len() && strip_label(s) == #[trigger] s.skip(k),
{
    lemma_trim_start_is_suffix(s);
    let t = trim_start(s);
    let k0 = choose|k: int| 0 <= k <= s.len() && t == #[trigger] s.skip(k);
    if t.len() > 0 && 'A' <= ascii_upper(t[0]) && ascii_upper(t[0]) <= 'D' {
        let rest = t.drop_first();
        assert(rest =~= s.skip(k0 + 1));
        if rest.len() > 0 && is_label_mark(rest[0]) {
            assert(rest.drop_first() =~= s.skip(k0 + 2));
            lemma_trim_start_is_suffix(s.skip(k0 + 2));
            let k1 = choose|k: int|
                0 <= k <= s.skip(k0 + 2).len() && trim_start(s.skip(k0 + 2)) == #[trigger] s.skip(
                    k0 + 2,
                ).skip(k);
            assert(s.skip(k0 + 2).skip(k1) =~= s.skip(k0 + 2 + k1));
        } else if ascii_upper(t[0]) != 'A' && rest.len() > 0 && is_white(rest[0]) {
            lemma_trim_start_is_suffix(s.skip(k0 + 1));
            let k1 = choose|k: int|
                0 <= k <= s.skip(k0 + 1).len() && trim_start(s.skip(k0 + 1)) == #[trigger] s.skip(
                    k0 + 1,
                ).skip(k);
            assert(s.skip(k0 + 1).skip(k1) =~= s.skip(k0 + 1 + k1));
        } else {
            assert(s.skip(0) =~= s);
        }
    } else {
        assert(s.skip(0) =~= s);
    }
}

proof fn lemma_trim_start_is_suffix(s: Seq<char>)
    ensures
        exists|k: int| 0 <= k <= s.len() && trim_start(s) == #[trigger] s.skip(k),
    decreases s.len(),
{
    if s.len() > 0 && is_white(s[0]) {
        lemma_trim_start_is_suffix(s.drop_first());
        let k = choose|k: int|
            0 <= k <= s.drop_first().len() && trim_start(s.drop_first()) == #[trigger] s.drop_first().skip(k);
        assert(s.drop_first().skip(k) =~= s.skip(k + 1));
    } else {
        assert(s.skip(0) =~= s);
    }
}

// ---------------------------------------------------------------------------
// Keeping the complete questions
// ---------------------------------------------------------------------------

/// A question with four answers, four explanations and an index among them.
pub open spec fn complete(q: QuestionView) -> bool {
    q.answers.len() == 4 && q.explanations.len() == 4 && q.correct_index < 4
}

/// `q` with the label stripped from every answer and explanation.
pub open spec fn relabeled(q: QuestionView) -> QuestionView {
    QuestionView {
        question: q.question,
        answers: q.answers.map_values(|a: Seq<char>| strip_label(a)),
        correct_index: q.correct_index,
        explanations: q.explanations.map_values(|e: Seq<char>| strip_label(e)),
    }
}

/// The questions that the items of a reply yield, in order: each item that
/// deserialises as a complete question, with its labels stripped.
pub open spec fn collect_questions(items: Seq<Json>) -> Seq<QuestionView>
    decreases items.len(),
{
    if items.len() == 0 {
        Seq::empty()
    } else {
        let rest = collect_questions(items.drop_last());
        match decode_question(items.last()) {
            Some(q) => if complete(q) {
                rest.push(relabeled(q))
            } else {
                rest
            },
            None => rest,
        }
    }
}

fn strip_labels(v: &Vec<String>) -> (r: Vec<String>)
    ensures
        texts(r@) == texts(v@).map_values(|a: Seq<char>| strip_label(a)),
{
    let mut out: Vec<String> = Vec::new();
    let mut i: usize = 0;
    while i < v.len()
        invariant
            i <= v@.len(),
            out@.len() == i,
            forall|j: int| 0 <= j < i ==> (#[trigger] out@[j])@ == strip_label(v@[j]@),
        decreases v.len() - i,
    {
        let s = strip_label_prefix(v[i].as_str());
        out.push(s);
        i = i + 1;
    }
    assert(texts(out@) =~= texts(v@).map_values(|a: Seq<char>| strip_label(a)));
    out
}

fn relabel(q: Question) -> (r: Question)
    ensures
        r@ == relabeled(q@),
{
    let answers = strip_labels(&q.answers);
    let explanations = strip_labels(&q.explanations);
    Question { question: q.question, answers, correct_index: q.correct_index, explanations }
}

/// The complete questions among `items`, with their labels stripped.
pub fn questions_from_items(items: &Vec<Json>) -> (r: Vec<Question>)
    ensures
        question_views(r@) == collect_questions(items@),
        forall|i: int|
            0 <= i < r@.len() ==> (#[trigger] r@[i]).answers@.len() == 4
                && r@[i].explanations@.len() == 4 && r@[i].correct_index < 4,
{
    let mut out: Vec<Question> = Vec::new();
    let mut i: usize = 0;
    while i < items.len()
        invariant
            i <= items@.len(),
            question_views(out@) == collect_questions(items@.take(i as int)),
        decreases items.len() - i,
    {
        let ghost before = out@;
        assert(items@.take(i + 1).drop_last() =~= items@.take(i as int));
        assert(items@.take(i + 1).last() == items@[i as int]);
        match question_from_json(&items[i]) {
            Some(q) => {
                if q.answers.len() == 4 && q.explanations.len() == 4 && q.correct_index < 4 {
                    let q2 = relabel(q);
                    out.push(q2);
                    assert(question_views(out@) =~= question_views(before).push(q2@));
                }
            },
            None => {},
        }
        i = i + 1;
    }
    assert(items@.take(items@.len() as int) =~= items@);
    proof {
        collected_have_four_of_each(items@);
        assert forall|i: int| 0 <= i < out@.len() implies (#[trigger] out@[i]).answers@.len() == 4
            && out@[i].explanations@.len() == 4 && out@[i].correct_index < 4 by {
            assert(question_views(out@)[i] == out@[i]@);
        }
    }
    out
}

// ---------------------------------------------------------------------------
// Reading a reply
// ---------------------------------------------------------------------------

/// A control character becomes a space; everything else is kept.
pub open spec fn clean_char(c: char) -> char {
    if (c as u32) < 0x20 && c != ' ' {
        ' '
    } else {
        c
    }
}

/// The reply with its control characters blanked out.
pub open spec fn cleaned_text(s: Seq<char>) -> Seq<char> {
    Seq::new(s.len(), |i: int| clean_char(s[i]))
}

/// `i` is the first position of `c` in `s`.
pub open spec fn is_first_index(s: Seq<char>, c: char, i: int) -> bool {
    0 <= i < s.len() && s[i] == c && forall|j: int| 0 <= j < i ==> s[j] != c
}

/// `i` is the last position of `c` in `s`.
pub open spec fn is_last_index(s: Seq<char>, c: char, i: int) -> bool {
    0 <= i < s.len() && s[i] == c && forall|j: int| i < j < s.len() ==> s[j] != c
}

/// `str::find` for a character.
pub open spec fn first_index(s: Seq<char>, c: char) -> Option<int> {
    if exists|i: int| is_first_index(s, c, i) {
        Some(choose|i: int| is_first_index(s, c, i))
    } else {
        None
    }
}

/// `str::rfind` for a character.
pub open spec fn last_index(s: Seq<char>, c: char) -> Option<int> {
    if exists|i: int| is_last_index(s, c, i) {
        Some(choose|i: int| is_last_index(s, c, i))
    } else {
        None
    }
}

/// The span from the first `open` to the last `close`, both included, when
/// the last `close` comes after the first `open`.
pub open spec fn bracket_span(s: Seq<char>, open: char, close: char) -> Option<Seq<char>> {
    match (first_index(s, open), last_index(s, close)) {
        (Some(a), Some(b)) => if b > a {
            Some(s.subrange(a, b + 1))
        } else {
            None
        },
        _ => None,
    }
}

/// The parsed value of an optional span.
pub open spec fn parse_span(o: Option<Seq<char>>) -> Option<Json> {
    match o {
        Some(t) => parse_result(t),
        None => None,
    }
}

/// The error text of parsing an empty text.
pub open spec fn empty_parse_error() -> Seq<char> {
    match json_parse(Seq::empty()) {
        Err(e) => e,
        Ok(_) => Seq::empty(),
    }
}

/// The JSON value of a reply: the reply parsed as it is, else with its
/// control characters blanked out, else the blanked span from the first `[`
/// to the last `]`, else the one from the first `{` to the last `}`; when
/// all fail, the error of parsing an empty text.
pub open spec fn reply_value(text: Seq<char>) -> Result<Json, Seq<char>> {
    match json_parse(text) {
        Ok(v) => Ok(v),
        Err(_) => {
            let c = cleaned_text(text);
            match json_parse(c) {
                Ok(v) => Ok(v),
                Err(_) => match parse_span(bracket_span(c, '[', ']')) {
                    Some(v) => Ok(v),
                    None => match parse_span(bracket_span(c, '{', '}')) {
                        Some(v) => Ok(v),
                        None => Err(empty_parse_error()),
                    },
                },
            }
        },
    }
}

/// What reading a reply gives: its complete questions, or the error text.
pub open spec fn extract_outcome(text: Seq<char>) -> Result<Seq<QuestionView>, Seq<char>> {
    reply_outcome(reply_value(text))
}

/// What a reply's JSON value (or the error of reading it) gives: the
/// complete questions of its first non-empty array, or the error text.
pub open spec fn reply_outcome(parsed: Result<Json, Seq<char>>) -> Result<Seq<QuestionView>, Seq<char>> {
    match parsed {
        Err(e) => Err("AI returned invalid JSON: "@ + e),
        Ok(v) => match find_array(v) {
            None => Err("AI response did not contain a JSON array of questions"@),
            Some(items) => {
                let qs = collect_questions(items);
                if qs.len() == 0 {
                    Err("AI response contained no valid, complete questions"@)
                } else {
                    Ok(qs)
                }
            },
        },
    }
}

fn cleaned_chars(text: &str) -> (r: Vec<char>)
    ensures
        r@ == cleaned_text(text@),
{
    let cs = chars_of(text);
    let mut out: Vec<char> = Vec::new();
    let mut i: usize = 0;
    while i < cs.len()
        invariant
            cs@ == text@,
            i <= cs@.len(),
            out@ == cleaned_text(text@).take(i as int),
        decreases cs.len() - i,
    {
        let c = cs[i];
        let d = if (c as u32) < 0x20 && c != ' ' {
            ' '
        } else {
            c
        };
        out.push(d);
        assert(cleaned_text(text@).take(i + 1) =~= cleaned_text(text@).take(i as int).push(d));
        i = i + 1;
    }
    assert(cleaned_text(text@).take(cs@.len() as int) =~= cleaned_text(text@));
    out
}

fn first_index_of(cs: &Vec<char>, c: char) -> (r: Option<usize>)
    ensures
        match r {
            Some(i) => first_index(cs@, c) == Some(i as int) && i < cs@.len(),
            None => first_index(cs@, c) is None,
        },
{
    let mut i: usize = 0;
    while i < cs.len()
        invariant
            i <= cs@.len(),
            forall|j: int| 0 <= j < i ==> cs@[j] != c,
        decreases cs.len() - i,
    {
        if cs[i] == c {
            assert(is_first_index(cs@, c, i as int));
            proof {
                let k = choose|k: int| is_first_index(cs@, c, k);
                assert(k == i as int) by {
                    if k < i as int {
                    } else if k > i as int {
                        assert(cs@[i as int] == c);
                    }
                }
            }
            return Some(i);
        }
        i = i + 1;
    }
    assert forall|k: int| !is_first_index(cs@, c, k) by {
        if is_first_index(cs@, c, k) {
            assert(cs@[k] == c);
        }
    }
    None
}

fn last_index_of(cs: &Vec<char>, c: char) -> (r: Option<usize>)
    ensures
        match r {
            Some(i) => last_index(cs@, c) == Some(i as int) && i < cs@.len(),
            None => last_index(cs@, c) is None,
        },
{
    let mut i: usize = cs.len();
    while i > 0
        invariant
            i <= cs@.len(),
            forall|j: int| i <= j < cs@.len() ==> cs@[j] != c,
        decreases i,
    {
        if cs[i - 1] == c {
            assert(is_last_index(cs@, c, i - 1));
            proof {
                let k = choose|k: int| is_last_index(cs@, c, k);
                assert(k == i - 1) by {
                    if k > i - 1 {
                    } else if k < i - 1 {
                        assert(cs@[i - 1] == c);
                    }
                }
            }
            return Some(i - 1);
        }
        i = i - 1;
    }
    assert forall|k: int| !is_last_index(cs@, c, k) by {
        if is_last_index(cs@, c, k) {
            assert(cs@[k] == c);
        }
    }
    None
}

/// Parses the span of `cs` from the first `open` to the last `close`.
fn parse_bracket_span(cs: &Vec<char>, open: char, close: char) -> (r: Option<Json>)
    ensures
        r == parse_span(bracket_span(cs@, open, close)),
{
    let first = first_index_of(cs, open);
    let last = last_index_of(cs, close);
    match (first, last) {
        (Some(start), Some(end)) => {
            let n = cs.len();
            assert(end < n);
            if end > start {
                let span = string_of_range(cs, start, end + 1);
                match parse_json(span.as_str()) {
                    Ok(v) => Some(v),
                    Err(_) => None,
                }
            } else {
                None
            }
        },
        _ => None,
    }
}

/// The JSON value of a model's reply (see `reply_value`).
pub fn parse_reply(text: &str) -> (r: Result<Json, String>)
    ensures
        match r {
            Ok(v) => reply_value(text@) == Ok::<Json, Seq<char>>(v),
            Err(e) => reply_value(text@) == Err::<Json, Seq<char>>(e@),
        },
{
    if let Ok(v) = parse_json(text) {
        return Ok(v);
    }
    let cleaned = cleaned_chars(text);
    let cleaned_str = string_of(&cleaned);
    if let Ok(v) = parse_json(cleaned_str.as_str()) {
        return Ok(v);
    }
    if let Some(v) = parse_bracket_span(&cleaned, '[', ']') {
        return Ok(v);
    }
    if let Some(v) = parse_bracket_span(&cleaned, '{', '}') {
        return Ok(v);
    }
    let empty = String::new();
    match parse_json(empty.as_str()) {
        Err(e) => Err(e),
        Ok(_) => {
            assert(false);
            Err(empty)
        },
    }
}

/// Reads the questions out of a model's reply. Local models sometimes put
/// raw control characters inside JSON strings, which strict parsers refuse,
/// so the reply is tried as it is, then with those characters blanked out,
/// then cut down to its outermost `[...]` or `{...}` span. Only complete
/// questions (four answers, four explanations, an index below four) are
/// kept, with their answer labels stripped.
pub fn extract_json_array(text: &str) -> (r: Result<Vec<Question>, String>)
    ensures
        match r {
            Ok(qs) => extract_outcome(text@) == Ok::<Seq<QuestionView>, Seq<char>>(
                question_views(qs@),
            ),
            Err(e) => extract_outcome(text@) == Err::<Seq<QuestionView>, Seq<char>>(e@),
        },
        r matches Ok(qs) ==> qs@.len() > 0 && forall|i: int|
            0 <= i < qs@.len() ==> (#[trigger] qs@[i]).answers@.len() == 4
                && qs@[i].explanations@.len() == 4 && qs@[i].correct_index < 4,
{
    let parsed = parse_reply(text);
    let r = questions_from_reply(&parsed);
    proof {
        extracted_questions_have_four_of_each(text@);
        if let Ok(ref qs) = r {
            assert forall|i: int| 0 <= i < qs@.len() implies (#[trigger] qs@[i]).answers@.len() == 4
                && qs@[i].explanations@.len() == 4 && qs@[i].correct_index < 4 by {
                assert(question_views(qs@)[i] == qs@[i]@);
            }
        }
    }
    r
}

/// The questions of a reply, given its JSON value or the error of reading
/// it (see `reply_outcome`): a reading error, a value without a non-empty
/// array, and an array without a complete question each give their message.
pub fn questions_from_reply(parsed: &Result<Json, String>) -> (r: Result<Vec<Question>, String>)
    ensures
        ({
            let p = match parsed {
                Ok(v) => Ok::<Json, Seq<char>>(*v),
                Err(e) => Err::<Json, Seq<char>>(e@),
            };
            match r {
                Ok(qs) => reply_outcome(p) == Ok::<Seq<QuestionView>, Seq<char>>(
                    question_views(qs@),
                ),
                Err(e) => reply_outcome(p) == Err::<Seq<QuestionView>, Seq<char>>(e@),
            }
        }),
{
    let parsed = match parsed {
        Ok(v) => v,
        Err(e) => {
            let mut m = String::from_str("AI returned invalid JSON: ");
            m.append(e.as_str());
            return Err(m);
        },
    };
    let array = match find_question_array(parsed) {
        Some(a) => a,
        None => {
            return Err(String::from_str("AI response did not contain a JSON array of questions"));
        },
    };
    let questions = questions_from_items(array);
    if questions.len() == 0 {
        return Err(String::from_str("AI response contained no valid, complete questions"));
    }
    Ok(questions)
}

// ---------------------------------------------------------------------------
// Laws
// ---------------------------------------------------------------------------

/// A text that starts with the article "A " (or "a ") keeps it: the label
/// stripper never removes a bare leading A.
pub proof fn article_is_kept(rest: Seq<char>)
    ensures
        strip_label(seq!['A', ' '] + rest) == seq!['A', ' '] + rest,
        strip_label(seq!['a', ' '] + rest) == seq!['a', ' '] + rest,
{
    let s1 = seq!['A', ' '] + rest;
    let s2 = seq!['a', ' '] + rest;
    assert(trim_start(s1) == s1);
    assert(trim_start(s2) == s2);
    assert(s1.drop_first()[0] == ' ');
    assert(s2.drop_first()[0] == ' ');
}

/// A text that does not start (after whitespace) with a letter from A to D
/// is left as it is.
pub proof fn unlabeled_text_is_kept(s: Seq<char>)
    requires
        trim_start(s).len() > 0,
        !('A' <= ascii_upper(trim_start(s)[0]) && ascii_upper(trim_start(s)[0]) <= 'D'),
    ensures
        strip_label(s) == s,
{
}

/// Every question kept from a reply is complete (four answers, four
/// explanations, an index below four).
proof fn collected_are_complete(items: Seq<Json>)
    ensures
        forall|i: int|
            0 <= i < collect_questions(items).len() ==> complete(
                #[trigger] collect_questions(items)[i],
            ),
    decreases items.len(),
{
    if items.len() > 0 {
        collected_are_complete(items.drop_last());
        let rest = collect_questions(items.drop_last());
        if let Some(q) = decode_question(items.last()) {
            if complete(q) {
                let r = relabeled(q);
                assert(r.answers.len() == q.answers.len());
                assert(r.explanations.len() == q.explanations.len());
                assert(complete(r));
                assert forall|i: int| 0 <= i < rest.push(r).len() implies complete(
                    #[trigger] rest.push(r)[i],
                ) by {
                    if i < rest.len() {
                        assert(rest.push(r)[i] == rest[i]);
                    }
                }
            }
        }
    }
}

/// Reading a reply never yields an empty list, and every question it yields
/// is complete.
pub proof fn extracted_questions_are_complete(text: Seq<char>)
    ensures
        extract_outcome(text) matches Ok(qs) ==> qs.len() > 0 && forall|i: int|
            0 <= i < qs.len() ==> complete(#[trigger] qs[i]),
{
    if let Ok(v) = reply_value(text) {
        if let Some(items) = find_array(v) {
            collected_are_complete(items);
        }
    }
}

/// Every question kept from the items of a reply has exactly four answers,
/// exactly four explanations and an index below four.
pub proof fn collected_have_four_of_each(items: Seq<Json>)
    ensures
        forall|i: int|
            0 <= i < collect_questions(items).len() ==> (#[trigger] collect_questions(items)[i]).answers.len()
                == 4 && collect_questions(items)[i].explanations.len() == 4
                && collect_questions(items)[i].correct_index < 4,
{
    collected_are_complete(items);
    assert forall|i: int| 0 <= i < collect_questions(items).len() implies (#[trigger] collect_questions(
        items,
    )[i]).answers.len() == 4 && collect_questions(items)[i].explanations.len() == 4
        && collect_questions(items)[i].correct_index < 4 by {
        assert(complete(collect_questions(items)[i]));
    }
}

/// Every question read out of a reply has exactly four answers, exactly four
/// explanations and an index below four, and a successful read gives at
/// least one question.
pub proof fn extracted_questions_have_four_of_each(text: Seq<char>)
    ensures
        extract_outcome(text) matches Ok(qs) ==> qs.len() > 0 && forall|i: int|
            0 <= i < qs.len() ==> (#[trigger] qs[i]).answers.len() == 4 && qs[i].explanations.len()
                == 4 && qs[i].correct_index < 4,
{
    extracted_questions_are_complete(text);
    if let Ok(qs) = extract_outcome(text) {
        assert forall|i: int| 0 <= i < qs.len() implies (#[trigger] qs[i]).answers.len() == 4
            && qs[i].explanations.len() == 4 && qs[i].correct_index < 4 by {
            assert(complete(qs[i]));
        }
    }
}

/// An item that does not decode as a question with exactly four answers,
/// exactly four explanations and an index below four adds nothing to the
/// questions read; one that does is added, labels stripped, after the
/// questions of the items before it.
pub proof fn items_are_kept_exactly_when_complete(items: Seq<Json>, x: Json)
    ensures
        match decode_question(x) {
            Some(q) => if q.answers.len() == 4 && q.explanations.len() == 4 && q.correct_index < 4 {
                collect_questions(items.push(x)) == collect_questions(items).push(relabeled(q))
            } else {
                collect_questions(items.push(x)) == collect_questions(items)
            },
            None => collect_questions(items.push(x)) == collect_questions(items),
        },
{
    assert(items.push(x).drop_last() =~= items);
    assert(items.push(x).last() == x);
}

} // verus!
