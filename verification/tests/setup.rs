use examgo::ollama::{LocalAiSetup, SetupAction, SetupEvent, SERVER_POLLS};
use examgo::platform::{brew_probe, install_step, Platform, INSTALL_NOTICE, MAC_DOWNLOAD_SCRIPT};

fn is_check(a: &SetupAction) -> bool {
    matches!(a, SetupAction::CheckServer)
}

fn finish(a: SetupAction) -> (Result<String, String>, Option<String>) {
    match a {
        SetupAction::Finish(r, m) => (r, m),
        other => panic!("expected the end of setup, got {other:?}"),
    }
}

#[test]
fn setup_with_a_running_server_and_the_model_installed() {
    let (mut s, a) = LocalAiSetup::new("qwen3:4b".to_string());
    assert!(matches!(a, SetupAction::LookForServer));
    assert!(!s.is_finished());
    let a = s.step(SetupEvent::ServerFound(true));
    assert!(matches!(a, SetupAction::Localize));
    let a = s.step(SetupEvent::Completed);
    assert!(is_check(&a));
    let a = s.step(SetupEvent::Running(true));
    assert!(matches!(a, SetupAction::ListModels));
    let a = s.step(SetupEvent::Models(vec!["llama3:8b".to_string(), "qwen3:4b".to_string()]));
    assert!(s.is_finished());
    let (r, m) = finish(a);
    assert_eq!(r, Ok("ready".to_string()));
    assert_eq!(m, Some("Model \"qwen3:4b\" is ready!".to_string()));
}

#[test]
fn setup_installs_a_missing_server_and_downloads_the_model() {
    let (mut s, _) = LocalAiSetup::new("phi4".to_string());
    assert!(matches!(s.step(SetupEvent::ServerFound(false)), SetupAction::Install));
    assert!(matches!(s.step(SetupEvent::Completed), SetupAction::Localize));
    assert!(is_check(&s.step(SetupEvent::Completed)));
    match s.step(SetupEvent::Running(false)) {
        SetupAction::StartServer(m) => assert_eq!(m, "Starting local AI server…"),
        other => panic!("expected the server start, got {other:?}"),
    }
    assert!(is_check(&s.step(SetupEvent::Completed)));
    assert!(matches!(s.step(SetupEvent::Running(false)), SetupAction::Sleep(1000)));
    assert!(is_check(&s.step(SetupEvent::Completed)));
    assert!(is_check(&s.step(SetupEvent::Running(true))));
    assert!(matches!(s.step(SetupEvent::Running(true)), SetupAction::ListModels));
    match s.step(SetupEvent::Models(vec!["phi3:latest".to_string()])) {
        SetupAction::Pull(m) => assert_eq!(m, "Downloading AI model \"phi4\" (one-time)…"),
        other => panic!("expected a download, got {other:?}"),
    }
    let (r, m) = finish(s.step(SetupEvent::Completed));
    assert_eq!(r, Ok("ready".to_string()));
    assert_eq!(m, Some("Model \"phi4\" is ready!".to_string()));
}

#[test]
fn a_bare_model_name_matches_its_latest_tag() {
    let (mut s, _) = LocalAiSetup::new("phi4".to_string());
    s.step(SetupEvent::ServerFound(true));
    s.step(SetupEvent::Completed);
    s.step(SetupEvent::Running(true));
    let (r, _) = finish(s.step(SetupEvent::Models(vec!["phi4:latest".to_string()])));
    assert_eq!(r, Ok("ready".to_string()));
}

#[test]
fn a_failed_install_ends_setup_with_its_error() {
    let (mut s, _) = LocalAiSetup::new("qwen3:4b".to_string());
    s.step(SetupEvent::ServerFound(false));
    let (r, m) = finish(s.step(SetupEvent::Failed("could not run winget: boom".to_string())));
    assert_eq!(r, Err("could not run winget: boom".to_string()));
    assert_eq!(m, None);
    assert!(s.is_finished());
}

#[test]
fn a_failed_move_or_download_ends_setup_with_its_error() {
    let (mut s, _) = LocalAiSetup::new("qwen3:4b".to_string());
    s.step(SetupEvent::ServerFound(true));
    let (r, _) = finish(s.step(SetupEvent::Failed("disk full".to_string())));
    assert_eq!(r, Err("disk full".to_string()));

    let (mut s, _) = LocalAiSetup::new("qwen3:4b".to_string());
    s.step(SetupEvent::ServerFound(true));
    s.step(SetupEvent::Completed);
    s.step(SetupEvent::Running(true));
    s.step(SetupEvent::Models(vec![]));
    let (r, _) = finish(s.step(SetupEvent::Failed("model download failed: nope".to_string())));
    assert_eq!(r, Err("model download failed: nope".to_string()));
}

#[test]
fn a_server_that_never_answers_is_asked_thirty_times_and_once_more() {
    let (mut s, _) = LocalAiSetup::new("qwen3:4b".to_string());
    s.step(SetupEvent::ServerFound(true));
    s.step(SetupEvent::Completed);
    s.step(SetupEvent::Running(false));
    let mut a = s.step(SetupEvent::Completed);
    let mut checks = 0;
    let mut sleeps = 0;
    loop {
        match a {
            SetupAction::CheckServer => {
                checks += 1;
                a = s.step(SetupEvent::Running(false));
            }
            SetupAction::Sleep(ms) => {
                assert_eq!(ms, 1000);
                sleeps += 1;
                a = s.step(SetupEvent::Completed);
            }
            other => {
                let (r, m) = finish(other);
                assert_eq!(
                    r,
                    Err("local AI server did not start — try restarting the app".to_string())
                );
                assert_eq!(m, None);
                break;
            }
        }
    }
    assert_eq!(SERVER_POLLS, 30);
    assert_eq!(sleeps, 30);
    assert_eq!(checks, 31);
}

#[test]
fn an_event_that_does_not_answer_changes_nothing() {
    let (mut s, _) = LocalAiSetup::new("qwen3:4b".to_string());
    assert!(matches!(s.step(SetupEvent::Completed), SetupAction::LookForServer));
    assert!(matches!(s.step(SetupEvent::ServerFound(true)), SetupAction::Localize));
    assert!(matches!(s.step(SetupEvent::Running(true)), SetupAction::Localize));
}

#[test]
fn install_commands_per_platform() {
    let w = install_step(Platform::Windows, false);
    assert_eq!(w.command.program, "winget");
    assert_eq!(
        w.command.args,
        vec![
            "install",
            "-e",
            "--id",
            "Ollama.Ollama",
            "--silent",
            "--accept-package-agreements",
            "--accept-source-agreements"
        ]
    );
    assert_eq!(w.notice, None);
    assert_eq!(w.run_error, "could not run winget: ");

    let b = install_step(Platform::MacOs, true);
    assert_eq!(b.command.program, "brew");
    assert_eq!(b.command.args, vec!["install", "ollama"]);
    assert_eq!(b.notice, None);
    assert_eq!(b.run_error, "could not run brew: ");

    let d = install_step(Platform::MacOs, false);
    assert_eq!(d.command.program, "sh");
    assert_eq!(d.command.args, vec!["-c".to_string(), MAC_DOWNLOAD_SCRIPT.to_string()]);
    assert_eq!(
        d.notice,
        Some("No Homebrew found — downloading Ollama directly from ollama.com…".to_string())
    );
    assert_eq!(d.run_error, "could not download Ollama: ");
    assert_eq!(
        MAC_DOWNLOAD_SCRIPT,
        "set -e; tmp=$(mktemp -d); curl -fsSL -o \"$tmp/Ollama-darwin.zip\" https://ollama.com/download/Ollama-darwin.zip; ditto -xk \"$tmp/Ollama-darwin.zip\" /Applications/; rm -rf \"$tmp\""
    );

    let o = install_step(Platform::Other, true);
    assert_eq!(o.command.program, "sh");
    assert_eq!(o.command.args, vec!["-c", "curl -fsSL https://ollama.com/install.sh | sh"]);
    assert_eq!(o.notice, None);
    assert_eq!(o.run_error, "could not run the Ollama install script: ");

    assert_eq!(
        INSTALL_NOTICE,
        "Installing Ollama (one-time, ~700 MB)… this can take a few minutes."
    );
}

#[test]
fn homebrew_probe() {
    let p = brew_probe();
    assert_eq!(p.program, "sh");
    assert_eq!(p.args, vec!["-c", "command -v brew"]);
}
