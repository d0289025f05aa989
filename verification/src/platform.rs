//! What the app asks of the operating system: the commands it runs to stop
//! the model server or to record where models live, the current time, and
//! the small readings it makes of command output and paths.
use vstd::prelude::*;

use crate::question::first_index;
use crate::text::{chars_of, string_of_range};

verus! {

/// The operating system the app runs on, as far as the commands differ.
#[derive(Clone, Copy, Debug, PartialEq, Eq, Structural)]
pub enum Platform {
    Windows,
    MacOs,
    Other,
}

/// A program to run, with its arguments.
pub struct Command {
    pub program: String,
    pub args: Vec<String>,
}

/// The program and the arguments of a command.
pub open spec fn command_view(c: Command) -> (Seq<char>, Seq<Seq<char>>) {
    (c.program@, c.args@.map_values(|a: String| a@))
}

/// The commands of a list.
pub open spec fn commands_view(v: Seq<Command>) -> Seq<(Seq<char>, Seq<Seq<char>>)> {
    v.map_values(|c: Command| command_view(c))
}

fn command(program: &str, args: Vec<&str>) -> (r: Command)
    ensures
        command_view(r) == (program@, args@.map_values(|a: &str| a@)),
{
    let mut v: Vec<String> = Vec::new();
    let mut i: usize = 0;
    while i < args.len()
        invariant
            i <= args@.len(),
            v@.map_values(|a: String| a@) == args@.take(i as int).map_values(|a: &str| a@),
        decreases args.len() - i,
    {
        let ghost before = v@;
        v.push(String::from_str(args[i]));
        proof {
            assert(v@.map_values(|a: String| a@) =~= before.map_values(|a: String| a@).push(
                args@[i as int]@,
            ));
            assert(args@.take(i + 1).map_values(|a: &str| a@) =~= args@.take(i as int).map_values(
                |a: &str| a@,
            ).push(args@[i as int]@));
        }
        i = i + 1;
    }
    assert(args@.take(args@.len() as int) =~= args@);
    Command { program: String::from_str(program), args: v }
}

/// The commands that stop a running model server: `taskkill` on both of
/// its process names on Windows, `pkill` on both names on macOS, and `pkill`
/// on `ollama` elsewhere.
pub open spec fn kill_commands(platform: Platform) -> Seq<(Seq<char>, Seq<Seq<char>>)> {
    match platform {
        Platform::Windows => seq![
            ("taskkill"@, seq!["/IM"@, "ollama.exe"@, "/F"@]),
            ("taskkill"@, seq!["/IM"@, "ollama app.exe"@, "/F"@]),
        ],
        Platform::MacOs => seq![
            ("pkill"@, seq!["-x"@, "ollama"@]),
            ("pkill"@, seq!["-x"@, "Ollama"@]),
        ],
        Platform::Other => seq![("pkill"@, seq!["-x"@, "ollama"@])],
    }
}

/// The commands that stop any running model server, so that a change of
/// its configuration takes effect when it next starts. Their failures are
/// ignored: the server may simply not be running.
pub fn kill_ollama(platform: Platform) -> (r: Vec<Command>)
    ensures
        commands_view(r@) == kill_commands(platform),
{
    let mut v: Vec<Command> = Vec::new();
    match platform {
        Platform::Windows => {
            v.push(command("taskkill", vec!["/IM", "ollama.exe", "/F"]));
            v.push(command("taskkill", vec!["/IM", "ollama app.exe", "/F"]));
        },
        Platform::MacOs => {
            v.push(command("pkill", vec!["-x", "ollama"]));
            v.push(command("pkill", vec!["-x", "Ollama"]));
        },
        Platform::Other => {
            v.push(command("pkill", vec!["-x", "ollama"]));
        },
    }
    assert(commands_view(v@) =~~= kill_commands(platform));
    v
}

/// The commands that record the models folder for every later start of the
/// server: `setx` on Windows, `launchctl setenv` on macOS, none elsewhere.
pub open spec fn models_env_commands(platform: Platform, dir: Seq<char>) -> Seq<
    (Seq<char>, Seq<Seq<char>>),
> {
    match platform {
        Platform::Windows => seq![("setx"@, seq!["OLLAMA_MODELS"@, dir])],
        Platform::MacOs => seq![("launchctl"@, seq!["setenv"@, "OLLAMA_MODELS"@, dir])],
        Platform::Other => Seq::empty(),
    }
}

/// The commands that make `OLLAMA_MODELS` point at `dir_str` for the
/// server's own starts as well.
pub fn persist_models_env(platform: Platform, dir_str: &str) -> (r: Vec<Command>)
    ensures
        commands_view(r@) == models_env_commands(platform, dir_str@),
{
    let mut v: Vec<Command> = Vec::new();
    match platform {
        Platform::Windows => {
            v.push(command("setx", vec!["OLLAMA_MODELS", dir_str]));
        },
        Platform::MacOs => {
            v.push(command("launchctl", vec!["setenv", "OLLAMA_MODELS", dir_str]));
        },
        Platform::Other => {},
    }
    assert(commands_view(v@) =~~= models_env_commands(platform, dir_str@));
    v
}

/// The command that shows a folder in the system's file manager: `cmd /C
/// start "" <path>` on Windows, `open <path>` on macOS, `xdg-open <path>`
/// elsewhere.
pub open spec fn open_folder_plan(platform: Platform, path: Seq<char>) -> (
    Seq<char>,
    Seq<Seq<char>>,
) {
    match platform {
        Platform::Windows => ("cmd"@, seq!["/C"@, "start"@, ""@, path]),
        Platform::MacOs => ("open"@, seq![path]),
        Platform::Other => ("xdg-open"@, seq![path]),
    }
}

/// The command that opens the folder at `path` (see `open_folder_plan`).
pub fn open_folder_command(platform: Platform, path: &str) -> (r: Command)
    ensures
        command_view(r) =~~= open_folder_plan(platform, path@),
{
    match platform {
        Platform::Windows => command("cmd", vec!["/C", "start", "", path]),
        Platform::MacOs => command("open", vec![path]),
        Platform::Other => command("xdg-open", vec![path]),
    }
}

/// The error when the folder at `path` could not be opened, given the
/// reason the system reported.
pub fn open_folder_error(path: &str, reason: &str) -> (r: String)
    ensures
        r@ == "could not open folder ("@ + path@ + "): "@ + reason@,
{
    let mut m = String::from_str("could not open folder (");
    m.append(path);
    m.append("): ");
    m.append(reason);
    m
}

// ---------------------------------------------------------------------------
// The clock
// ---------------------------------------------------------------------------

#[verifier::external_type_specification]
#[verifier::external_body]
pub struct ExSystemTime(std::time::SystemTime);

/// `SystemTime::now`: the current time of the machine; nothing is stated of
/// it.
#[verifier::external_body]
fn system_now() -> std::time::SystemTime {
    std::time::SystemTime::now()
}

/// `SystemTime::duration_since(UNIX_EPOCH)`: how long after the Unix epoch
/// `t` is, or `None` when `t` is before it; nothing more is stated.
#[verifier::external_body]
fn since_unix_epoch(t: &std::time::SystemTime) -> Option<std::time::Duration> {
    t.duration_since(std::time::UNIX_EPOCH).ok()
}

/// `Duration::as_millis`: the whole milliseconds of `d`; nothing is stated
/// of the value.
#[verifier::external_body]
fn duration_millis(d: &std::time::Duration) -> u128 {
    d.as_millis()
}

/// The millisecond timestamp kept for a time: its milliseconds since the
/// epoch, cut to 64 bits, or 0 for a time before the epoch.
pub open spec fn timestamp_of(ms: Option<u128>) -> u64 {
    match ms {
        Some(m) => m as u64,
        None => 0,
    }
}

/// The timestamp for milliseconds since the epoch (see `timestamp_of`).
pub fn timestamp_from_millis(ms: Option<u128>) -> (r: u64)
    ensures
        r == timestamp_of(ms),
{
    match ms {
        Some(m) => m as u64,
        None => 0,
    }
}

/// The current time in milliseconds since the Unix epoch (0 if the clock is
/// set before it). It depends on the clock, so nothing is stated of it.
pub fn now_ms() -> u64 {
    let t = system_now();
    let ms = match since_unix_epoch(&t) {
        Some(d) => Some(duration_millis(&d)),
        None => None,
    };
    timestamp_from_millis(ms)
}

// ---------------------------------------------------------------------------
// Readings of command output and paths
// ---------------------------------------------------------------------------

/// The first line of `s` as `str::lines` gives it: the text before the
/// first newline without a carriage return just before that newline, the
/// whole text when there is no newline, nothing for an empty text.
pub open spec fn first_line(s: Seq<char>) -> Option<Seq<char>> {
    if s.len() == 0 {
        None
    } else {
        match first_index(s, '\n') {
            Some(p) => {
                let l = s.take(p);
                Some(
                    if l.len() > 0 && l.last() == '\r' {
                        l.drop_last()
                    } else {
                        l
                    },
                )
            },
            None => Some(s),
        }
    }
}

/// The first line of a command's output, when it is not empty: where the
/// `find` search put the first match.
pub fn first_output_line(out: &str) -> (r: Option<String>)
    ensures
        match r {
            Some(l) => first_line(out@) == Some(l@) && l@.len() > 0,
            None => first_line(out@) is None || first_line(out@) == Some(Seq::<char>::empty()),
        },
{
    let cs = chars_of(out);
    if cs.len() == 0 {
        return None;
    }
    let mut i: usize = 0;
    while i < cs.len() && cs[i] != '\n'
        invariant
            i <= cs@.len(),
            forall|j: int| 0 <= j < i ==> cs@[j] != '\n',
        decreases cs.len() - i,
    {
        i = i + 1;
    }
    let end = if i < cs.len() {
        proof {
            assert(crate::question::is_first_index(cs@, '\n', i as int));
            let k = choose|k: int| crate::question::is_first_index(cs@, '\n', k);
            assert(k == i as int) by {
                if k > i as int {
                    assert(cs@[i as int] == '\n');
                } else if k < i as int {
                }
            }
        }
        if i > 0 && cs[i - 1] == '\r' {
            i - 1
        } else {
            i
        }
    } else {
        proof {
            assert forall|k: int| !crate::question::is_first_index(cs@, '\n', k) by {
                if crate::question::is_first_index(cs@, '\n', k) {
                    assert(cs@[k] == '\n');
                }
            }
            assert(cs@.take(cs@.len() as int) =~= cs@);
        }
        i
    };
    proof {
        if i < cs@.len() {
            if i > 0 && cs@[i - 1] == '\r' {
                assert(cs@.take(i as int).drop_last() =~= cs@.take(end as int));
            }
        }
        assert(cs@.subrange(0, end as int) =~= cs@.take(end as int));
    }
    if end == 0 {
        return None;
    }
    Some(string_of_range(&cs, 0, end))
}

/// `s` with every leading copy of `p` removed.
pub open spec fn strip_all_prefix(s: Seq<char>, p: Seq<char>) -> Seq<char>
    decreases s.len(),
{
    if p.len() > 0 && p.len() <= s.len() && s.take(p.len() as int) == p {
        strip_all_prefix(s.skip(p.len() as int), p)
    } else {
        s
    }
}

/// The marker that Windows puts before a path in its long-path form.
pub open spec fn verbatim_marker() -> Seq<char> {
    seq!['\\', '\\', '?', '\\']
}

/// A folder path without the `\\?\` long-path markers at its start, as
/// shown to the user and handed to the shell.
pub fn strip_verbatim_prefix(path: &str) -> (r: String)
    ensures
        r@ == strip_all_prefix(path@, verbatim_marker()),
{
    let cs = chars_of(path);
    let ghost p = verbatim_marker();
    let mut i: usize = 0;
    assert(cs@.skip(0) =~= cs@);
    while i < cs.len() && cs.len() - i >= 4 && cs[i] == '\\' && cs[i + 1] == '\\' && cs[i + 2] == '?' && cs[i + 3]
        == '\\'
        invariant
            cs@ == path@,
            i <= cs@.len(),
            strip_all_prefix(path@, p) == strip_all_prefix(cs@.skip(i as int), p),
            p == verbatim_marker(),
        decreases cs.len() - i,
    {
        proof {
            let s = cs@.skip(i as int);
            assert(s.take(4) =~= p);
            assert(s.skip(4) =~= cs@.skip(i + 4));
        }
        i = i + 4;
    }
    proof {
        let s = cs@.skip(i as int);
        if 4 <= s.len() {
            if s.take(4) == p {
                assert(s.take(4)[0] == cs@[i as int]);
                assert(s.take(4)[1] == cs@[i + 1]);
                assert(s.take(4)[2] == cs@[i + 2]);
                assert(s.take(4)[3] == cs@[i + 3]);
            }
        }
        assert(cs@.subrange(i as int, cs@.len() as int) =~= s);
    }
    string_of_range(&cs, i, cs.len())
}

/// The error when installing the model server did not work: the installer
/// failed and no server program can be found afterwards.
pub fn install_failure(installer_ok: bool, server_found: bool) -> (r: Option<String>)
    ensures
        match r {
            Some(m) => !installer_ok && !server_found
                && m@ == "Ollama installation failed — install it manually from ollama.com/download and try again"@,
            None => installer_ok || server_found,
        },
{
    if !installer_ok && !server_found {
        Some(
            String::from_str(
                "Ollama installation failed — install it manually from ollama.com/download and try again",
            ),
        )
    } else {
        None
    }
}

// ---------------------------------------------------------------------------
// Installing the model server
// ---------------------------------------------------------------------------

/// The script that downloads the server's app bundle into `/Applications`
/// on a Mac without Homebrew.
pub const MAC_DOWNLOAD_SCRIPT: &'static str = "set -e; \
                         tmp=$(mktemp -d); \
                         curl -fsSL -o \"$tmp/Ollama-darwin.zip\" https://ollama.com/download/Ollama-darwin.zip; \
                         ditto -xk \"$tmp/Ollama-darwin.zip\" /Applications/; \
                         rm -rf \"$tmp\"";

/// The message shown when the installation starts.
pub const INSTALL_NOTICE: &'static str = "Installing Ollama (one-time, ~700 MB)… this can take a few minutes.";

/// How the server is installed on one platform: the command to run, a
/// message to show before it (if any), and the start of the error reported
/// when the command cannot be run at all.
pub struct InstallStep {
    pub command: Command,
    pub notice: Option<String>,
    pub run_error: String,
}

/// The command, notice and error start of the installation: `winget` on
/// Windows; on macOS `brew` when Homebrew is there, else a direct download
/// of the app bundle; the official install script elsewhere.
pub open spec fn install_plan(platform: Platform, have_brew: bool) -> (
    (Seq<char>, Seq<Seq<char>>),
    Option<Seq<char>>,
    Seq<char>,
) {
    match platform {
        Platform::Windows => (
            (
                "winget"@,
                seq![
                    "install"@,
                    "-e"@,
                    "--id"@,
                    "Ollama.Ollama"@,
                    "--silent"@,
                    "--accept-package-agreements"@,
                    "--accept-source-agreements"@,
                ],
            ),
            None,
            "could not run winget: "@,
        ),
        Platform::MacOs => if have_brew {
            (("brew"@, seq!["install"@, "ollama"@]), None, "could not run brew: "@)
        } else {
            (
                ("sh"@, seq!["-c"@, MAC_DOWNLOAD_SCRIPT@]),
                Some("No Homebrew found — downloading Ollama directly from ollama.com…"@),
                "could not download Ollama: "@,
            )
        },
        Platform::Other => (
            ("sh"@, seq!["-c"@, "curl -fsSL https://ollama.com/install.sh | sh"@]),
            None,
            "could not run the Ollama install script: "@,
        ),
    }
}

/// The command that tells whether Homebrew is installed (it succeeds when
/// `brew` is found).
pub fn brew_probe() -> (r: Command)
    ensures
        command_view(r) =~~= ("sh"@, seq!["-c"@, "command -v brew"@]),
{
    command("sh", vec!["-c", "command -v brew"])
}

/// How to install the server on `platform` (see `install_plan`).
pub fn install_step(platform: Platform, have_brew: bool) -> (r: InstallStep)
    ensures
        ({
            let (c, notice, err) = install_plan(platform, have_brew);
            &&& command_view(r.command) =~~= c
            &&& match r.notice {
                Some(n) => notice == Some(n@),
                None => notice is None,
            }
            &&& r.run_error@ == err
        }),
{
    match platform {
        Platform::Windows => InstallStep {
            command: command(
                "winget",
                vec![
                    "install",
                    "-e",
                    "--id",
                    "Ollama.Ollama",
                    "--silent",
                    "--accept-package-agreements",
                    "--accept-source-agreements",
                ],
            ),
            notice: None,
            run_error: String::from_str("could not run winget: "),
        },
        Platform::MacOs => {
            if have_brew {
                InstallStep {
                    command: command("brew", vec!["install", "ollama"]),
                    notice: None,
                    run_error: String::from_str("could not run brew: "),
                }
            } else {
                InstallStep {
                    command: command("sh", vec!["-c", MAC_DOWNLOAD_SCRIPT]),
                    notice: Some(
                        String::from_str(
                            "No Homebrew found — downloading Ollama directly from ollama.com…",
                        ),
                    ),
                    run_error: String::from_str("could not download Ollama: "),
                }
            }
        },
        Platform::Other => InstallStep {
            command: command("sh", vec!["-c", "curl -fsSL https://ollama.com/install.sh | sh"]),
            notice: None,
            run_error: String::from_str("could not run the Ollama install script: "),
        },
    }
}

} // verus!
