use examgo::prompt::{build_prompt, difficulty_clause};
use examgo::store::strip_bom;
use examgo::text::{push_decimal, push_signed_decimal, sanitize_name, trim_start_str, trim_str};

fn reference_prompt(exam: &str, count: usize, difficulty: &str) -> String {
    let (label, guidance) = reference_clause(difficulty);
    format!(
        "You are an expert certification-exam item writer with deep subject-matter expertise \
in \"{exam}\". Generate exactly {count} multiple-choice practice questions for this exam{label}.\n\n\
Guidelines:\n\
- Cover a broad, representative range of the exam's official objectives; do not repeat the \
same narrow sub-topic more than twice.\n\
- Write questions the way they appear on real certification exams: clear and unambiguous, \
with scenario-based phrasing where that fits the topic. Exactly one answer must be correct.\n\
- All 4 answer options must be plausible and similar in length and style. Wrong answers \
should reflect realistic misconceptions or common mistakes, never be obviously silly or \
off-topic.\n\
- Vary which position (0-3) holds the correct answer across questions so the pattern isn't \
predictable — do not favor any one letter.\n\
- Never repeat the same question wording or scenario twice in the set.\n\
- Do NOT prefix any answer or explanation with its own letter or number \
(no \"A.\", \"B)\", \"C:\", \"3.\", etc.) — the app already displays that label \
automatically. Write only the content itself.\n\
- {guidance}\n\n\
Respond with ONLY a JSON array, no markdown fences, no commentary, no text before or after \
the array. Each element must be an object with exactly these fields:\n\
  \"question\": string — the question text\n\
  \"answers\": array of exactly 4 answer strings\n\
  \"correct_index\": integer 0-3 — index of the correct answer\n\
  \"explanations\": array of exactly 4 strings — for each answer, explain concisely why it \
is correct or incorrect, teaching the underlying concept so the learner improves even from a \
wrong guess\n\n\
Each explanation should be 1-3 sentences, specific and educational — avoid generic filler \
like \"this is correct because it is the best option.\""
    )
}

fn reference_clause(difficulty: &str) -> (String, String) {
    let guidance = match difficulty {
        "easy" => "Keep every question at EASY difficulty: fundamental definitions, \
single-concept recall, and terminology — the kind of question that checks basic \
familiarity with a topic.",
        "medium" => "Keep every question at MEDIUM difficulty: applied, scenario-based \
questions that require combining two or three related concepts, similar to the bulk of \
questions on a real certification exam.",
        "hard" => "Keep every question at HARD difficulty: complex, multi-step scenarios \
that require analysis, trade-off judgment, or knowledge of edge cases — comparable to the \
hardest questions on the real exam.",
        _ => "Vary the difficulty naturally across the set: include some fundamental \
recall questions, mostly applied scenario questions, and a few genuinely hard ones — the \
same spread a real certification exam would have.",
    };
    let label = if difficulty.is_empty() {
        String::new()
    } else {
        format!(" at {difficulty} difficulty")
    };
    (label, guidance.to_string())
}

#[test]
fn prompt_matches_the_written_template() {
    for (exam, count, difficulty) in [
        ("AWS Solutions Architect", 10usize, "easy"),
        ("CCNA", 1, "medium"),
        ("Az-104 \"Admin\"", 100, "hard"),
        ("CompTIA Security+", 25, ""),
        ("CKA", 7, "nightmare"),
        ("", 0, "Easy"),
        ("Ünïcode ✓", 1234567, "easy"),
    ] {
        assert_eq!(build_prompt(exam, count, difficulty), reference_prompt(exam, count, difficulty));
    }
}

#[test]
fn prompt_names_exam_count_and_difficulty() {
    let p = build_prompt("CCNA", 12, "hard");
    assert!(p.contains("expertise in \"CCNA\". Generate exactly 12 multiple-choice practice questions for this exam at hard difficulty.\n\n"));
    assert!(p.contains("- Keep every question at HARD difficulty"));
    assert!(p.ends_with("like \"this is correct because it is the best option.\""));
}

#[test]
fn difficulty_clause_known_levels() {
    for d in ["easy", "medium", "hard", "", "other"] {
        assert_eq!(difficulty_clause(d), reference_clause(d));
    }
    let (label, guidance) = difficulty_clause("medium");
    assert_eq!(label, " at medium difficulty");
    assert!(guidance.starts_with("Keep every question at MEDIUM difficulty"));
    let (label, guidance) = difficulty_clause("");
    assert_eq!(label, "");
    assert!(guidance.starts_with("Vary the difficulty naturally"));
    let (label, guidance) = difficulty_clause("EASY");
    assert_eq!(label, " at EASY difficulty");
    assert!(guidance.starts_with("Vary the difficulty naturally"));
}

#[test]
fn sanitize_name_replaces_unsafe_characters() {
    assert_eq!(sanitize_name("My Set/1.json"), "My_Set_1_json");
    assert_eq!(sanitize_name("../../etc/passwd"), "______etc_passwd");
    assert_eq!(sanitize_name("a-b_c"), "a-b_c");
    assert_eq!(sanitize_name("Café über 2024"), "Café_über_2024");
    assert_eq!(sanitize_name("日本語"), "日本語");
    assert_eq!(sanitize_name(""), "");
    assert_eq!(sanitize_name("\\:*?\"<>|"), "________");
}

#[test]
fn sanitize_name_is_idempotent() {
    for s in ["My Set/1.json", "x y z", "Café über", "___", "a\tb\nc", "ⅷ ½"] {
        let once = sanitize_name(s);
        assert_eq!(sanitize_name(&once), once);
        assert_eq!(once.chars().count(), s.chars().count());
        assert!(once.chars().all(|c| c.is_alphanumeric() || c == '-' || c == '_'));
    }
}

#[test]
fn trim_agrees_with_std_on_every_whitespace() {
    for u in 0u32..0x3100 {
        if let Some(c) = char::from_u32(u) {
            let s = format!("{c}x{c}y{c}");
            assert_eq!(trim_str(&s), s.trim(), "char {u:#x}");
            assert_eq!(trim_start_str(&s), s.trim_start(), "char {u:#x}");
        }
    }
    assert_eq!(trim_str(" \u{3000}\t abc \u{a0}\u{2028}"), "abc");
    assert_eq!(trim_str("   "), "");
    assert_eq!(trim_str(""), "");
}

#[test]
fn trim_is_idempotent_on_examples() {
    for s in ["  a b  ", "\u{85}x\u{205f}", "", " ", "abc"] {
        let t = trim_str(s);
        assert_eq!(trim_str(&t), t);
    }
}

#[test]
fn decimal_rendering() {
    for n in [0u64, 7, 10, 99, 100, 1234567890, u64::MAX] {
        let mut s = String::from("n=");
        push_decimal(&mut s, n);
        assert_eq!(s, format!("n={n}"));
    }
    for n in [0i64, -1, -5, 42, i64::MIN, i64::MAX] {
        let mut s = String::new();
        push_signed_decimal(&mut s, n);
        assert_eq!(s, n.to_string());
    }
}

#[test]
fn byte_order_marks_are_stripped() {
    assert_eq!(strip_bom("\u{feff}{\"a\":1}"), "{\"a\":1}");
    assert_eq!(strip_bom("\u{feff}\u{feff}x"), "x");
    assert_eq!(strip_bom("x\u{feff}"), "x\u{feff}");
    assert_eq!(strip_bom(""), "");
    let once = strip_bom("\u{feff}\u{feff}\u{feff}abc");
    assert_eq!(strip_bom(&once), once);
}

#[test]
fn sanitize_name_keeps_exactly_ascii_letters_digits_dash_underscore() {
    let all: String = (0u8..128).map(|b| b as char).collect();
    let out = sanitize_name(&all);
    for (c, o) in all.chars().zip(out.chars()) {
        let keep = c.is_ascii_alphanumeric() || c == '-' || c == '_';
        assert_eq!(o, if keep { c } else { '_' });
    }
    assert!(!out.contains('/') && !out.contains('\\') && !out.contains(':') && !out.contains('.'));
}
