use rushell::editor::{handle_key_press, InputLoop, Key, KeyAction};
use rushell::exec::Handoff;
use rushell::history::History;
use rushell::line::{Action, Event, LineRun};
use rushell::parse::Redirect;

#[derive(Default)]
struct World {
    cwd: String,
    dirs: Vec<String>,
    programs: Vec<(String, String)>,
    terminal: String,
    files: Vec<(String, String, bool)>,
    spawned: Vec<(String, Vec<String>, Redirect, String)>,
    buffer: String,
    handed: String,
    actions: usize,
}

fn drive(mut run: LineRun, history: &History, world: &mut World) -> InputLoop {
    let mut event = Event::Done;
    loop {
        world.actions += 1;
        assert!(world.actions < 100, "the run does not finish");
        let action = run.step(event, history);
        event = Event::Done;
        match action {
            Action::Print(t) => world.terminal.push_str(&t),
            Action::Capture(t) => world.buffer.push_str(&t),
            Action::AskCwd => event = Event::Cwd(world.cwd.clone()),
            Action::CheckDir(d) => event = Event::DirExists(world.dirs.contains(&d)),
            Action::GoHome => world.cwd = "/home/me".to_string(),
            Action::ChangeDir(d) => world.cwd = d,
            Action::Resolve(n) => {
                let found = world.programs.iter().find(|(name, _)| *name == n);
                event = Event::Found(found.map(|(_, p)| p.clone()));
            }
            Action::Spawn(c, a, r) => {
                let stdin = std::mem::take(&mut world.handed);
                world.spawned.push((c, a, r, stdin));
            }
            Action::HistoryRead(_) | Action::HistoryWrite(_) | Action::HistoryAppend(_) => {}
            Action::WriteFile(p, append) => {
                world.files.push((p, std::mem::take(&mut world.buffer), append))
            }
            Action::HandOn(h) => {
                world.handed = if h == Handoff::Buffer {
                    std::mem::take(&mut world.buffer)
                } else {
                    String::new()
                };
                world.buffer.clear();
            }
            Action::Abandon(t) => world.terminal.push_str(&format!("{t}\n")),
            Action::Finish(o) => return o,
        }
    }
}

fn enter(line: &str, history: &mut History, world: &mut World) -> InputLoop {
    let mut input = line.to_string();
    match handle_key_press(&mut input, Key::Enter, history) {
        KeyAction::Submit(text, run) => {
            assert_eq!(input, "");
            assert_eq!(text, line.trim());
            drive(run, history, world)
        }
        _ => panic!("ENTER must submit the line"),
    }
}

fn world() -> World {
    World {
        cwd: "/work".to_string(),
        dirs: vec!["/tmp".to_string()],
        programs: vec![
            ("wc".to_string(), "/usr/bin/wc".to_string()),
            ("ls".to_string(), "/bin/ls".to_string()),
        ],
        ..World::default()
    }
}

#[test]
fn enter_runs_echo_on_terminal() {
    let (mut h, mut w) = (History::new(), world());
    assert_eq!(enter("echo hello world", &mut h, &mut w), InputLoop::ContinueOuter);
    assert_eq!(w.terminal, "hello world\n");
    assert!(w.files.is_empty());
}

#[test]
fn enter_runs_quoted_echo() {
    let (mut h, mut w) = (History::new(), world());
    assert_eq!(enter(r#"echo 'a  b' "c\"d""#, &mut h, &mut w), InputLoop::ContinueOuter);
    assert_eq!(w.terminal, "a  b c\"d\n");
}

#[test]
fn pwd_goes_to_truncated_file() {
    let (mut h, mut w) = (History::new(), world());
    assert_eq!(enter("pwd > /tmp/out", &mut h, &mut w), InputLoop::ContinueOuter);
    assert_eq!(w.terminal, "");
    assert_eq!(w.files, vec![("/tmp/out".to_string(), "/work\n".to_string(), false)]);
}

#[test]
fn echo_output_feeds_wc() {
    let (mut h, mut w) = (History::new(), world());
    assert_eq!(enter("echo a | wc -c", &mut h, &mut w), InputLoop::ContinueOuter);
    assert_eq!(w.terminal, "");
    assert_eq!(
        w.spawned,
        vec![("wc".to_string(), vec!["-c".to_string()], Redirect::Terminal, "a\n".to_string())]
    );
}

#[test]
fn cd_error_goes_to_file() {
    let (mut h, mut w) = (History::new(), world());
    assert_eq!(enter("cd /does/not/exist 2> /tmp/err", &mut h, &mut w), InputLoop::ContinueOuter);
    assert_eq!(w.terminal, "");
    assert_eq!(w.cwd, "/work");
    assert_eq!(
        w.files,
        vec![(
            "/tmp/err".to_string(),
            "cd: /does/not/exist: No such file or directory\n".to_string(),
            false
        )]
    );
}

#[test]
fn cd_changes_directory() {
    let (mut h, mut w) = (History::new(), world());
    enter("cd /tmp", &mut h, &mut w);
    assert_eq!(w.cwd, "/tmp");
    enter("cd ~", &mut h, &mut w);
    assert_eq!(w.cwd, "/home/me");
    enter("cd", &mut h, &mut w);
    assert_eq!(w.terminal, "No file or directory passed into cd\n");
}

#[test]
fn missing_target_abandons_line() {
    let (mut h, mut w) = (History::new(), world());
    assert_eq!(enter("echo a >", &mut h, &mut w), InputLoop::ContinueOuter);
    assert_eq!(w.terminal, "No redirect target found\n");
    assert!(w.files.is_empty());
}

#[test]
fn exit_ends_the_shell() {
    let (mut h, mut w) = (History::new(), world());
    assert_eq!(enter("exit 3", &mut h, &mut w), InputLoop::Exit);
    assert_eq!(enter("exit", &mut h, &mut w), InputLoop::Exit);
}

#[test]
fn type_reports_builtins_and_paths() {
    let (mut h, mut w) = (History::new(), world());
    enter("type echo", &mut h, &mut w);
    enter("type ls", &mut h, &mut w);
    enter("type nosuch", &mut h, &mut w);
    assert_eq!(w.terminal, "echo is a shell builtin\nls is /bin/ls\nnosuch: not found\n");
}

#[test]
fn unknown_command_is_reported() {
    let (mut h, mut w) = (History::new(), world());
    assert_eq!(enter("frobnicate x", &mut h, &mut w), InputLoop::ContinueOuter);
    assert_eq!(w.terminal, "frobnicate: command not found\n");
    assert!(w.spawned.is_empty());
}

#[test]
fn external_output_to_append_file() {
    let (mut h, mut w) = (History::new(), world());
    enter("ls -l >> log", &mut h, &mut w);
    assert_eq!(
        w.spawned,
        vec![("ls".to_string(), vec!["-l".to_string()], Redirect::Stdout, String::new())]
    );
    assert_eq!(w.files, vec![("log".to_string(), String::new(), true)]);
}

#[test]
fn history_lists_through_the_run() {
    let (mut h, mut w) = (History::new(), world());
    h.add_entry("ls".to_string());
    h.add_entry("pwd".to_string());
    enter("history", &mut h, &mut w);
    enter("history 1", &mut h, &mut w);
    enter("history 9 2> e", &mut h, &mut w);
    assert_eq!(w.terminal, "  1  ls\n  2  pwd\n 2  pwd\n");
    assert_eq!(
        w.files,
        vec![(
            "e".to_string(),
            "Number provided is larger than current history: 2\n".to_string(),
            false
        )]
    );
}

#[test]
fn empty_line_finishes_at_once() {
    let (mut h, mut w) = (History::new(), world());
    assert_eq!(enter("   ", &mut h, &mut w), InputLoop::ContinueOuter);
    assert_eq!(w.terminal, "");
}
