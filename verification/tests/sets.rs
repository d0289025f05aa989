use examgo::platform::{
    first_output_line, install_failure, kill_ollama, now_ms, open_folder_command, open_folder_error,
    persist_models_env, strip_verbatim_prefix, timestamp_from_millis, Command, Platform,
};
use examgo::question::Question;
use examgo::store::{
    check_set_names, combine_results, generated_set, imported_set, new_question_set, plan_generation, set_exists_message,
    set_file_name, sort_newest_first, summarize, Attempt, GenerationPlan, Progress, SetSummary,
};

fn q(name: &str) -> Question {
    Question {
        question: name.to_string(),
        answers: vec!["a".into(), "b".into(), "c".into(), "d".into()],
        correct_index: 0,
        explanations: vec!["1".into(), "2".into(), "3".into(), "4".into()],
    }
}

fn summary(name: &str, at: u64) -> SetSummary {
    SetSummary {
        name: name.to_string(),
        exam: "E".to_string(),
        created_at: at,
        question_count: 1,
        attempts: vec![],
        providers: vec![],
    }
}

fn view(c: &Command) -> (String, Vec<String>) {
    (c.program.clone(), c.args.clone())
}

#[test]
fn set_files_are_named_after_the_sanitised_name() {
    assert_eq!(set_file_name("My Set"), "My_Set.json");
    assert_eq!(set_file_name("../x"), "___x.json");
    assert_eq!(set_file_name(""), ".json");
}

#[test]
fn new_set_checks() {
    assert_eq!(check_set_names(" ", "s"), Err("exam name is empty".to_string()));
    assert_eq!(check_set_names("", ""), Err("exam name is empty".to_string()));
    assert_eq!(check_set_names("e", "\t"), Err("set name is empty".to_string()));
    assert_eq!(check_set_names("e", "s"), Ok(()));
    assert_eq!(
        set_exists_message(" mine "),
        "a question set named \" mine \" already exists — pick another name"
    );
}

#[test]
fn generation_plans() {
    assert_eq!(plan_generation("", "s", 10, 1), Err("exam name is empty".to_string()));
    assert_eq!(plan_generation("e", " ", 10, 1), Err("set name is empty".to_string()));
    assert_eq!(plan_generation("e", "s", 10, 0), Err("select at least one AI model".to_string()));
    assert_eq!(plan_generation("e", "s", 10, 3), Ok(GenerationPlan { count: 10, per_model: 4 }));
    assert_eq!(plan_generation("e", "s", 9, 3), Ok(GenerationPlan { count: 9, per_model: 3 }));
    assert_eq!(plan_generation("e", "s", 0, 2), Ok(GenerationPlan { count: 1, per_model: 1 }));
    assert_eq!(plan_generation("e", "s", 1000, 7), Ok(GenerationPlan { count: 100, per_model: 15 }));
    assert_eq!(plan_generation("e", "s", 5, 10), Ok(GenerationPlan { count: 5, per_model: 1 }));
}

#[test]
fn plans_ask_for_enough_questions() {
    for count in 0..130usize {
        for models in 1..12usize {
            let p = plan_generation("e", "s", count, models).unwrap();
            assert!(p.per_model * models >= p.count);
            assert!((p.per_model - 1) * models < p.count);
        }
    }
}

#[test]
fn combining_model_results() {
    let results = vec![
        ("m1".to_string(), Ok(vec![q("1"), q("2")])),
        ("m2".to_string(), Err("timeout".to_string())),
        ("m3".to_string(), Ok(vec![q("3"), q("4")])),
    ];
    let qs = combine_results(results, 3).unwrap();
    let names: Vec<&str> = qs.iter().map(|x| x.question.as_str()).collect();
    assert_eq!(names, vec!["1", "2", "3"]);

    let results = vec![("m1".to_string(), Ok(vec![q("1")]))];
    assert_eq!(combine_results(results, 10).unwrap().len(), 1);

    let results: Vec<(String, Result<Vec<Question>, String>)> = vec![
        ("m1".to_string(), Err("a".to_string())),
        ("m2".to_string(), Ok(vec![])),
        ("m3".to_string(), Err("b".to_string())),
    ];
    assert_eq!(combine_results(results, 5).unwrap_err(), "all models failed — m1: a | m3: b");
    assert_eq!(combine_results(vec![], 5).unwrap_err(), "all models failed — ");
}

#[test]
fn importing_a_pasted_reply() {
    let text = r#"[{"question":"Q","answers":["A. a","b","c","d"],"correct_index":1,"explanations":["1","2","3","4"]}]"#;
    let set = imported_set("  CCNA ", " net ", text, 42).unwrap();
    assert_eq!(set.name, "net");
    assert_eq!(set.exam, "CCNA");
    assert_eq!(set.providers, vec!["imported".to_string()]);
    assert_eq!(set.created_at, 42);
    assert_eq!(set.questions.len(), 1);
    assert_eq!(set.questions[0].answers[0], "a");
    assert!(set.attempts.is_empty());
    let e = imported_set("CCNA", "net", "{}", 1).err().unwrap();
    assert_eq!(
        e,
        "AI response did not contain a JSON array of questions — make sure you pasted the AI's full JSON reply (it must be a JSON array of question objects)"
    );
}

#[test]
fn recording_attempts() {
    let mut set = new_question_set(" s ", " e ", vec!["m".to_string()], 7, vec![q("1")]);
    assert_eq!(set.name, "s");
    assert_eq!(set.exam, "e");
    let all = set.record_attempt(3, 4, 100);
    assert_eq!(all, vec![Attempt { correct: 3, total: 4, at: 100 }]);
    let all = set.record_attempt(4, 4, 200);
    assert_eq!(all, vec![Attempt { correct: 3, total: 4, at: 100 }, Attempt { correct: 4, total: 4, at: 200 }]);
    assert_eq!(set.attempts, all);
    assert_eq!(set.questions.len(), 1);
    assert_eq!(set.created_at, 7);
}

#[test]
fn listing_is_newest_first_and_stable() {
    let v = vec![summary("a", 5), summary("b", 9), summary("c", 5), summary("d", 1), summary("e", 9)];
    let sorted = sort_newest_first(v);
    let names: Vec<&str> = sorted.iter().map(|x| x.name.as_str()).collect();
    assert_eq!(names, vec!["b", "e", "a", "c", "d"]);
    assert!(sort_newest_first(vec![]).is_empty());
}

#[test]
fn summaries_count_questions() {
    let mut set = new_question_set("s", "e", vec!["m".to_string()], 7, vec![q("1"), q("2")]);
    set.record_attempt(1, 2, 3);
    let s = summarize(set);
    assert_eq!(s.question_count, 2);
    assert_eq!(s.name, "s");
    assert_eq!(s.created_at, 7);
    assert_eq!(s.attempts.len(), 1);
    assert_eq!(s.providers, vec!["m".to_string()]);
}

#[test]
fn initial_progress() {
    assert_eq!(Progress::initial(), Progress { xp: 0, level: 1 });
}

#[test]
fn commands_to_stop_the_server() {
    let w: Vec<_> = kill_ollama(Platform::Windows).iter().map(view).collect();
    assert_eq!(
        w,
        vec![
            ("taskkill".to_string(), vec!["/IM".to_string(), "ollama.exe".to_string(), "/F".to_string()]),
            ("taskkill".to_string(), vec!["/IM".to_string(), "ollama app.exe".to_string(), "/F".to_string()]),
        ]
    );
    let m: Vec<_> = kill_ollama(Platform::MacOs).iter().map(view).collect();
    assert_eq!(
        m,
        vec![
            ("pkill".to_string(), vec!["-x".to_string(), "ollama".to_string()]),
            ("pkill".to_string(), vec!["-x".to_string(), "Ollama".to_string()]),
        ]
    );
    let o: Vec<_> = kill_ollama(Platform::Other).iter().map(view).collect();
    assert_eq!(o, vec![("pkill".to_string(), vec!["-x".to_string(), "ollama".to_string()])]);
}

#[test]
fn commands_to_persist_the_models_folder() {
    let w: Vec<_> = persist_models_env(Platform::Windows, "C:\\data\\models").iter().map(view).collect();
    assert_eq!(w, vec![("setx".to_string(), vec!["OLLAMA_MODELS".to_string(), "C:\\data\\models".to_string()])]);
    let m: Vec<_> = persist_models_env(Platform::MacOs, "/m").iter().map(view).collect();
    assert_eq!(
        m,
        vec![("launchctl".to_string(), vec!["setenv".to_string(), "OLLAMA_MODELS".to_string(), "/m".to_string()])]
    );
    assert!(persist_models_env(Platform::Other, "/m").is_empty());
}

#[test]
fn clock_and_timestamps() {
    let t = now_ms();
    assert!(t > 1_600_000_000_000);
    assert_eq!(timestamp_from_millis(None), 0);
    assert_eq!(timestamp_from_millis(Some(1234)), 1234);
    assert_eq!(timestamp_from_millis(Some((1u128 << 64) + 5)), 5);
}

#[test]
fn first_line_of_output() {
    for out in ["", "\n", "a", "a\nb", "a\r\nb", "\r\n", "x\r", "  \nb", "abc\n\n"] {
        let expected = out.lines().next().filter(|l| !l.is_empty()).map(|l| l.to_string());
        assert_eq!(first_output_line(out), expected, "{out:?}");
    }
    assert_eq!(first_output_line("/Applications/Ollama.app/Contents/Resources/ollama\n"), Some("/Applications/Ollama.app/Contents/Resources/ollama".to_string()));
}

#[test]
fn long_path_markers_are_removed() {
    assert_eq!(strip_verbatim_prefix(r"\\?\C:\Users\me"), r"C:\Users\me");
    assert_eq!(strip_verbatim_prefix(r"\\?\\\?\C:"), "C:");
    assert_eq!(strip_verbatim_prefix(r"C:\x"), r"C:\x");
    assert_eq!(strip_verbatim_prefix(r"\\?"), r"\\?");
    for p in [r"\\?\C:\Users\me", r"\\?\\\?\x", "plain", ""] {
        assert_eq!(strip_verbatim_prefix(p), p.trim_start_matches(r"\\?\"));
    }
}

#[test]
fn install_outcome() {
    assert_eq!(
        install_failure(false, false),
        Some("Ollama installation failed — install it manually from ollama.com/download and try again".to_string())
    );
    assert_eq!(install_failure(true, false), None);
    assert_eq!(install_failure(false, true), None);
}

#[test]
fn a_generated_set_from_the_models_results() {
    let results = vec![
        ("m1".to_string(), Ok(vec![q("a"), q("b")])),
        ("m2".to_string(), Err("timed out".to_string())),
        ("m3".to_string(), Ok(vec![q("c"), q("d")])),
    ];
    let set = generated_set(
        " CCNA ",
        "  net 1 ",
        vec!["m1".to_string(), "m2".to_string(), "m3".to_string()],
        results,
        3,
        77,
    )
    .unwrap();
    assert_eq!(set.name, "net 1");
    assert_eq!(set.exam, "CCNA");
    assert_eq!(set.providers, vec!["m1", "m2", "m3"]);
    assert_eq!(set.created_at, 77);
    assert!(set.attempts.is_empty());
    let names: Vec<&str> = set.questions.iter().map(|x| x.question.as_str()).collect();
    assert_eq!(names, vec!["a", "b", "c"]);

    let e = generated_set(
        "CCNA",
        "net",
        vec!["m1".to_string(), "m2".to_string()],
        vec![("m1".to_string(), Err("x".to_string())), ("m2".to_string(), Ok(vec![]))],
        5,
        1,
    )
    .err()
    .unwrap();
    assert_eq!(e, "all models failed — m1: x");
}

#[test]
fn folder_opening_commands() {
    assert_eq!(
        view(&open_folder_command(Platform::Windows, "C:\\data\\models")),
        ("cmd".to_string(), vec!["/C".to_string(), "start".to_string(), "".to_string(), "C:\\data\\models".to_string()])
    );
    assert_eq!(
        view(&open_folder_command(Platform::MacOs, "/Users/a/models")),
        ("open".to_string(), vec!["/Users/a/models".to_string()])
    );
    assert_eq!(
        view(&open_folder_command(Platform::Other, "/home/a/models")),
        ("xdg-open".to_string(), vec!["/home/a/models".to_string()])
    );
    assert_eq!(
        open_folder_error("/home/a/models", "not found"),
        "could not open folder (/home/a/models): not found"
    );
}
