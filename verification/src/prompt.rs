//! The prompt that asks a model for a set of practice questions.
use vstd::prelude::*;

use crate::text::{decimal, push_decimal, str_equal};

verus! {

/// Guidance for a set of easy questions.
pub const EASY_GUIDANCE: &'static str = "Keep every question at EASY difficulty: fundamental definitions, \
single-concept recall, and terminology — the kind of question that checks basic \
familiarity with a topic.";

/// Guidance for a set of medium questions.
pub const MEDIUM_GUIDANCE: &'static str = "Keep every question at MEDIUM difficulty: applied, scenario-based \
questions that require combining two or three related concepts, similar to the bulk of \
questions on a real certification exam.";

/// Guidance for a set of hard questions.
pub const HARD_GUIDANCE: &'static str = "Keep every question at HARD difficulty: complex, multi-step scenarios \
that require analysis, trade-off judgment, or knowledge of edge cases — comparable to the \
hardest questions on the real exam.";

/// Guidance when no known difficulty is asked for.
pub const MIXED_GUIDANCE: &'static str = "Vary the difficulty naturally across the set: include some fundamental \
recall questions, mostly applied scenario questions, and a few genuinely hard ones — the \
same spread a real certification exam would have.";

/// A fixed part of the prompt.
pub const PROMPT_OPENING: &'static str = "You are an expert certification-exam item writer with deep subject-matter expertise \
in \"";

/// A fixed part of the prompt.
pub const PROMPT_AFTER_EXAM: &'static str = "\". Generate exactly ";

/// A fixed part of the prompt.
pub const PROMPT_AFTER_COUNT: &'static str = " multiple-choice practice questions for this exam";

/// A fixed part of the prompt.
pub const PROMPT_AFTER_LABEL: &'static str = ".\n\n\
Guidelines:\n\
- Cover a broad, representative range of the exam's official objectives; do not repeat the \
same narrow sub-topic more than twice.\n\
- Write questions the way they appear on real certification exams: clear and unambiguous, \
with scenario-based phrasing where that fits the topic. Exactly one answer must be correct.\n\
- All 4 answer options must be plausible and similar in length and style. Wrong answers \
should reflect realistic misconceptions or common mistakes, never be obviously silly or \
off-topic.\n\
- Vary which position (0-3) holds the correct answer across questions so the pattern isn't \
predictable — do not favor any one letter.\n\
- Never repeat the same question wording or scenario twice in the set.\n\
- Do NOT prefix any answer or explanation with its own letter or number \
(no \"A.\", \"B)\", \"C:\", \"3.\", etc.) — the app already displays that label \
automatically. Write only the content itself.\n\
- ";

/// A fixed part of the prompt.
pub const PROMPT_CLOSING: &'static str = "\n\n\
Respond with ONLY a JSON array, no markdown fences, no commentary, no text before or after \
the array. Each element must be an object with exactly these fields:\n\
  \"question\": string — the question text\n\
  \"answers\": array of exactly 4 answer strings\n\
  \"correct_index\": integer 0-3 — index of the correct answer\n\
  \"explanations\": array of exactly 4 strings — for each answer, explain concisely why it \
is correct or incorrect, teaching the underlying concept so the learner improves even from a \
wrong guess\n\n\
Each explanation should be 1-3 sentences, specific and educational — avoid generic filler \
like \"this is correct because it is the best option.\"";

/// The guidance sentence for a difficulty: one per known level (`easy`,
/// `medium`, `hard`) and a mixed spread for anything else.
pub open spec fn guidance_for(difficulty: Seq<char>) -> Seq<char> {
    if difficulty == "easy"@ {
        EASY_GUIDANCE@
    } else if difficulty == "medium"@ {
        MEDIUM_GUIDANCE@
    } else if difficulty == "hard"@ {
        HARD_GUIDANCE@
    } else {
        MIXED_GUIDANCE@
    }
}

/// The label that names the difficulty in the prompt: empty when no
/// difficulty is given, else " at <difficulty> difficulty".
pub open spec fn difficulty_label(difficulty: Seq<char>) -> Seq<char> {
    if difficulty.len() == 0 {
        Seq::empty()
    } else {
        " at "@ + difficulty + " difficulty"@
    }
}

/// The full prompt for `count` questions on `exam` at `difficulty`.
pub open spec fn prompt_text(exam: Seq<char>, count: usize, difficulty: Seq<char>) -> Seq<char> {
    PROMPT_OPENING@ + exam + PROMPT_AFTER_EXAM@ + decimal(count as nat) + PROMPT_AFTER_COUNT@
        + difficulty_label(difficulty) + PROMPT_AFTER_LABEL@ + guidance_for(difficulty)
        + PROMPT_CLOSING@
}

/// The difficulty label and guidance sentence for a requested difficulty.
pub fn difficulty_clause(difficulty: &str) -> (r: (String, String))
    ensures
        r.0@ == difficulty_label(difficulty@),
        r.1@ == guidance_for(difficulty@),
{
    let guidance = if str_equal(difficulty, "easy") {
        EASY_GUIDANCE
    } else if str_equal(difficulty, "medium") {
        MEDIUM_GUIDANCE
    } else if str_equal(difficulty, "hard") {
        HARD_GUIDANCE
    } else {
        MIXED_GUIDANCE
    };
    let label = if difficulty.unicode_len() == 0 {
        String::new()
    } else {
        let mut l = String::from_str(" at ");
        l.append(difficulty);
        l.append(" difficulty");
        l
    };
    (label, String::from_str(guidance))
}

/// The prompt that asks for exactly `count` multiple-choice questions on
/// `exam`, each with four answers, the index of the correct one and an
/// explanation per answer, as a bare JSON array.
pub fn build_prompt(exam: &str, count: usize, difficulty: &str) -> (r: String)
    ensures
        r@ == prompt_text(exam@, count, difficulty@),
{
    let (label, guidance) = difficulty_clause(difficulty);
    let mut p = String::from_str(PROMPT_OPENING);
    p.append(exam);
    p.append(PROMPT_AFTER_EXAM);
    push_decimal(&mut p, count as u64);
    p.append(PROMPT_AFTER_COUNT);
    p.append(label.as_str());
    p.append(PROMPT_AFTER_LABEL);
    p.append(guidance.as_str());
    p.append(PROMPT_CLOSING);
    p
}

} // verus!
