use examgo::question::questions_from_reply;
use examgo::json::{find_question_array, get_member, Json, JsonNumber};
use examgo::question::{extract_json_array, question_from_json, questions_from_items, strip_label_prefix, Question};

fn s(x: &str) -> Json {
    Json::Str(x.to_string())
}

fn obj(members: Vec<(&str, Json)>) -> Json {
    Json::Object(members.into_iter().map(|(k, v)| (k.to_string(), v)).collect())
}

fn strs(xs: &[&str]) -> Json {
    Json::Array(xs.iter().map(|x| s(x)).collect())
}

fn num(n: u64) -> Json {
    Json::Number(JsonNumber::PosInt(n))
}

fn question_json(q: &str, idx: u64) -> Json {
    obj(vec![
        ("answers", strs(&["a1", "a2", "a3", "a4"])),
        ("correct_index", num(idx)),
        ("explanations", strs(&["e1", "e2", "e3", "e4"])),
        ("question", s(q)),
    ])
}

const GOOD: &str = r#"[{"question":"What is 2+2?","answers":["3","4","5","6"],"correct_index":1,"explanations":["no","yes","no","no"]}]"#;

#[test]
fn reads_a_bare_array() {
    let qs = extract_json_array(GOOD).unwrap();
    assert_eq!(qs.len(), 1);
    assert_eq!(qs[0].question, "What is 2+2?");
    assert_eq!(qs[0].answers, vec!["3", "4", "5", "6"]);
    assert_eq!(qs[0].correct_index, 1);
    assert_eq!(qs[0].explanations, vec!["no", "yes", "no", "no"]);
}

#[test]
fn reads_an_array_wrapped_in_an_object() {
    let text = format!("{{\"meta\": {{\"n\": 1}}, \"questions\": {GOOD}}}");
    let qs = extract_json_array(&text).unwrap();
    assert_eq!(qs.len(), 1);
    assert_eq!(qs[0].question, "What is 2+2?");
}

#[test]
fn blanks_control_characters_inside_strings() {
    let text = "[{\"question\":\"Line one\nline two\",\"answers\":[\"a\",\"b\",\"c\",\"d\"],\"correct_index\":0,\"explanations\":[\"w\",\"x\",\"y\",\"z\"]}]";
    let qs = extract_json_array(text).unwrap();
    assert_eq!(qs[0].question, "Line one line two");
}

#[test]
fn cuts_out_the_outermost_array() {
    let text = format!("Sure! Here are your questions:\n```json\n{GOOD}\n```\nGood luck.");
    let qs = extract_json_array(&text).unwrap();
    assert_eq!(qs.len(), 1);
}

#[test]
fn falls_back_to_the_outermost_object() {
    let text = format!("see [1] then {{\"q\": {GOOD}}} end");
    let qs = extract_json_array(&text).unwrap();
    assert_eq!(qs.len(), 1);
    assert_eq!(qs[0].question, "What is 2+2?");
}

#[test]
fn invalid_json_reports_the_empty_text_error() {
    let e = extract_json_array("this is not json at all").unwrap_err();
    assert_eq!(e, "AI returned invalid JSON: EOF while parsing a value at line 1 column 0");
    let e = extract_json_array("").unwrap_err();
    assert_eq!(e, "AI returned invalid JSON: EOF while parsing a value at line 1 column 0");
}

#[test]
fn reply_without_an_array_is_refused() {
    assert_eq!(
        extract_json_array("{\"a\": 1, \"b\": {\"c\": []}}").unwrap_err(),
        "AI response did not contain a JSON array of questions"
    );
    assert_eq!(
        extract_json_array("[]").unwrap_err(),
        "AI response did not contain a JSON array of questions"
    );
}

#[test]
fn incomplete_questions_are_dropped() {
    let text = r#"[
        {"question":"three answers","answers":["a","b","c"],"correct_index":0,"explanations":["1","2","3","4"]},
        {"question":"index four","answers":["a","b","c","d"],"correct_index":4,"explanations":["1","2","3","4"]},
        {"question":"float index","answers":["a","b","c","d"],"correct_index":1.0,"explanations":["1","2","3","4"]},
        {"question":"missing explanations","answers":["a","b","c","d"],"correct_index":1},
        {"question":"negative","answers":["a","b","c","d"],"correct_index":-1,"explanations":["1","2","3","4"]},
        {"question":7,"answers":["a","b","c","d"],"correct_index":1,"explanations":["1","2","3","4"]}
    ]"#;
    assert_eq!(
        extract_json_array(text).unwrap_err(),
        "AI response contained no valid, complete questions"
    );
}

#[test]
fn complete_questions_are_kept_in_order() {
    let text = r#"[
        {"question":"first","answers":["a","b","c","d"],"correct_index":0,"explanations":["1","2","3","4"],"extra":true},
        {"question":"bad","answers":["a"],"correct_index":0,"explanations":["1"]},
        ["second", ["a","b","c","d"], 3, ["1","2","3","4"]],
        ["too long", ["a","b","c","d"], 3, ["1","2","3","4"], "x"]
    ]"#;
    let qs = extract_json_array(text).unwrap();
    let names: Vec<&str> = qs.iter().map(|q| q.question.as_str()).collect();
    assert_eq!(names, vec!["first", "second"]);
    assert_eq!(qs[1].correct_index, 3);
}

#[test]
fn labels_are_stripped_from_answers_and_explanations() {
    let text = r#"[{"question":"Q","answers":["A. first","B second","c) third","D: fourth"],"correct_index":2,"explanations":["A correct one","B. wrong","C- wrong","D — wrong"]}]"#;
    let qs = extract_json_array(text).unwrap();
    assert_eq!(qs[0].answers, vec!["first", "second", "third", "fourth"]);
    assert_eq!(qs[0].explanations, vec!["A correct one", "wrong", "wrong", "— wrong"]);
}

#[test]
fn strip_label_prefix_examples() {
    assert_eq!(strip_label_prefix("B provides connectivity"), "provides connectivity");
    assert_eq!(strip_label_prefix("C. is a physical layer"), "is a physical layer");
    assert_eq!(strip_label_prefix("A virtual network is"), "A virtual network is");
    assert_eq!(strip_label_prefix("a) the first"), "the first");
    assert_eq!(strip_label_prefix("  d:   spaced"), "spaced");
    assert_eq!(strip_label_prefix("D\u{2014}dash"), "dash");
    assert_eq!(strip_label_prefix("B\u{2013} en dash"), "en dash");
    assert_eq!(strip_label_prefix("Apple pie"), "Apple pie");
    assert_eq!(strip_label_prefix("Because"), "Because");
    assert_eq!(strip_label_prefix("E. not a label"), "E. not a label");
    assert_eq!(strip_label_prefix("B"), "B");
    assert_eq!(strip_label_prefix("   "), "   ");
    assert_eq!(strip_label_prefix(""), "");
    assert_eq!(strip_label_prefix("  keep leading space"), "  keep leading space");
    assert_eq!(strip_label_prefix("A. B. twice"), "B. twice");
}

#[test]
fn strip_label_result_is_a_suffix() {
    for t in ["B provides", "  c. x", "A x", "D—", "plain", ""] {
        let r = strip_label_prefix(t);
        assert!(t.ends_with(r.as_str()));
    }
}

#[test]
fn article_a_is_kept() {
    for rest in ["", "virtual machine", ". tricky", "b"] {
        let t = format!("A {rest}");
        assert_eq!(strip_label_prefix(&t), t);
        let t = format!("a {rest}");
        assert_eq!(strip_label_prefix(&t), t);
    }
}

#[test]
fn finds_the_first_nonempty_array() {
    let v = obj(vec![
        ("a", Json::Array(vec![])),
        ("b", obj(vec![("inner", Json::Array(vec![num(1), num(2)]))])),
        ("c", Json::Array(vec![num(3)])),
    ]);
    let found = find_question_array(&v).unwrap();
    assert_eq!(found.len(), 2);
    assert!(find_question_array(&Json::Array(vec![])).is_none());
    assert!(find_question_array(&s("x")).is_none());
    assert!(find_question_array(&Json::Null).is_none());
}

#[test]
fn decodes_question_objects_like_serde() {
    let q = question_from_json(&question_json("Q?", 2)).unwrap();
    assert_eq!(q.question, "Q?");
    assert_eq!(q.correct_index, 2);
    // a duplicated known member is an error
    let dup = obj(vec![
        ("answers", strs(&["a1", "a2", "a3", "a4"])),
        ("answers", strs(&["a1", "a2", "a3", "a4"])),
        ("correct_index", num(0)),
        ("explanations", strs(&["e1", "e2", "e3", "e4"])),
        ("question", s("Q")),
    ]);
    assert!(question_from_json(&dup).is_none());
    // a missing member is an error
    let missing = obj(vec![("question", s("Q")), ("answers", strs(&["a"])), ("correct_index", num(0))]);
    assert!(question_from_json(&missing).is_none());
    // wrong types are errors
    assert!(question_from_json(&obj(vec![
        ("answers", strs(&["a1", "a2", "a3", "a4"])),
        ("correct_index", s("1")),
        ("explanations", strs(&["e1", "e2", "e3", "e4"])),
        ("question", s("Q")),
    ]))
    .is_none());
    assert!(question_from_json(&Json::Bool(true)).is_none());
    // the array form
    let arr = Json::Array(vec![s("Q"), strs(&["a", "b"]), num(0), strs(&["x"])]);
    let q = question_from_json(&arr).unwrap();
    assert_eq!(q.answers.len(), 2);
    // NegInt that is not negative still reads as an index
    let neg = Json::Array(vec![s("Q"), strs(&[]), Json::Number(JsonNumber::NegInt(3)), strs(&[])]);
    assert_eq!(question_from_json(&neg).unwrap().correct_index, 3);
    let float = Json::Array(vec![s("Q"), strs(&[]), Json::Number(JsonNumber::Float), strs(&[])]);
    assert!(question_from_json(&float).is_none());
}

#[test]
fn items_keep_only_complete_questions() {
    let items = vec![question_json("one", 0), question_json("two", 9), Json::Null, question_json("three", 3)];
    let qs: Vec<Question> = questions_from_items(&items);
    let names: Vec<&str> = qs.iter().map(|q| q.question.as_str()).collect();
    assert_eq!(names, vec!["one", "three"]);
}

#[test]
fn member_lookup_reads_objects_only() {
    let v = obj(vec![("k", num(1))]);
    assert!(matches!(get_member(&v, "k"), Some(Json::Number(JsonNumber::PosInt(1)))));
    assert!(get_member(&v, "x").is_none());
    assert!(get_member(&Json::Array(vec![]), "k").is_none());
}

#[test]
fn questions_from_a_parse_result() {
    let e = questions_from_reply(&Err("expected value at line 1 column 1".to_string())).unwrap_err();
    assert_eq!(e, "AI returned invalid JSON: expected value at line 1 column 1");
    let e = questions_from_reply(&Ok(obj(vec![("a", num(1))]))).unwrap_err();
    assert_eq!(e, "AI response did not contain a JSON array of questions");
    let e = questions_from_reply(&Ok(Json::Array(vec![num(3)]))).unwrap_err();
    assert_eq!(e, "AI response contained no valid, complete questions");
    let qs = questions_from_reply(&Ok(obj(vec![(
        "questions",
        Json::Array(vec![question_json("Q1", 0), num(3), question_json("Q2", 3)]),
    )])))
    .unwrap();
    assert_eq!(qs.len(), 2);
    assert_eq!(qs[0].question, "Q1");
    assert_eq!(qs[1].question, "Q2");
    assert_eq!(qs[1].correct_index, 3);
    assert_eq!(qs[1].explanations, vec!["e1", "e2", "e3", "e4"]);
}
