use rmuxinator::config::{CliArgs, Config, Window};
use rmuxinator::emit::{attach_args, new_session_args, new_window_args, send_keys_args};
use rmuxinator::plan::command_plan;
use rmuxinator::session::{Action, Outcome, SessionBuilder};
use rmuxinator::target::{pane_target, window_target};

fn s(x: &str) -> String {
    x.to_string()
}

fn argv(xs: &[&str]) -> Vec<String> {
    xs.iter().map(|x| x.to_string()).collect()
}

fn window(name: &str, commands: &[&str]) -> Window {
    Window { name: s(name), root: s("~/"), commands: argv(commands) }
}

fn proj() -> Config {
    Config {
        name: s("proj"),
        root: s("~/proj"),
        windows: vec![window("editor", &["vim ."]), window("server", &["npm start", "echo ready"])],
    }
}

/// Runs the builder with every operation succeeding, collecting what it issues.
fn issue_all(b: &mut SessionBuilder) -> Vec<Vec<String>> {
    let mut out = Vec::new();
    loop {
        match b.step(Outcome::Succeeded) {
            Action::Run(a) => out.push(a),
            Action::Attach(a) => {
                out.push(a);
                assert!(matches!(b.step(Outcome::Succeeded), Action::Done));
                return out;
            }
            other => panic!("unexpected action {:?}", other),
        }
    }
}

#[test]
fn two_windows_give_the_full_sequence() {
    let expected = vec![
        argv(&["new-session", "-d", "-s", "proj"]),
        argv(&["new-window", "-t", "proj:0", "-n", "editor"]),
        argv(&["send-keys", "-t", "proj:0.0", "vim .", "Enter"]),
        argv(&["new-window", "-t", "proj:1", "-n", "server"]),
        argv(&["send-keys", "-t", "proj:1.0", "npm start", "Enter"]),
        argv(&["send-keys", "-t", "proj:1.0", "echo ready", "Enter"]),
        argv(&["-u", "attach-session", "-t", "proj"]),
    ];
    assert_eq!(command_plan(&proj()), expected);
    let mut b = SessionBuilder::new(&proj());
    assert_eq!(issue_all(&mut b), expected);
}

#[test]
fn no_windows_create_then_attach() {
    let c = Config { name: s("empty"), root: s("/"), windows: vec![] };
    let expected = vec![
        argv(&["new-session", "-d", "-s", "empty"]),
        argv(&["-u", "attach-session", "-t", "empty"]),
    ];
    assert_eq!(command_plan(&c), expected);
    let mut b = SessionBuilder::new(&c);
    assert!(matches!(b.step(Outcome::Succeeded), Action::Run(ref a) if *a == expected[0]));
    assert!(matches!(b.step(Outcome::Succeeded), Action::Attach(ref a) if *a == expected[1]));
}

#[test]
fn failed_window_creation_stops_everything() {
    let mut b = SessionBuilder::new(&proj());
    assert!(matches!(b.step(Outcome::Succeeded), Action::Run(_)));
    match b.step(Outcome::Succeeded) {
        Action::Run(a) => assert_eq!(a, argv(&["new-window", "-t", "proj:0", "-n", "editor"])),
        other => panic!("unexpected action {:?}", other),
    }
    assert!(matches!(b.step(Outcome::Failed), Action::Abort));
    assert!(matches!(b.step(Outcome::Succeeded), Action::Abort));
    assert!(matches!(b.step(Outcome::Succeeded), Action::Abort));
}

#[test]
fn failed_session_creation_stops_everything() {
    let mut b = SessionBuilder::new(&proj());
    assert!(matches!(b.step(Outcome::Succeeded), Action::Run(_)));
    assert!(matches!(b.step(Outcome::Failed), Action::Abort));
    assert!(matches!(b.step(Outcome::Succeeded), Action::Abort));
}

#[test]
fn window_index_is_position_not_name() {
    let c = Config {
        name: s("w"),
        root: s("/"),
        windows: vec![window("7", &[]), window("0", &["ls"])],
    };
    let plan = command_plan(&c);
    assert_eq!(plan[1], argv(&["new-window", "-t", "w:0", "-n", "7"]));
    assert_eq!(plan[2], argv(&["new-window", "-t", "w:1", "-n", "0"]));
    assert_eq!(plan[3], argv(&["send-keys", "-t", "w:1.0", "ls", "Enter"]));
    assert_eq!(plan.len(), 5);
}

#[test]
fn targets_write_the_index_in_decimal() {
    assert_eq!(window_target(&s("a"), 0), "a:0");
    assert_eq!(window_target(&s("a"), 9), "a:9");
    assert_eq!(window_target(&s("a"), 10), "a:10");
    assert_eq!(window_target(&s("dev"), 1207), "dev:1207");
    assert_eq!(pane_target(&s("dev"), 42), "dev:42.0");
    assert_eq!(window_target(&s("x"), usize::MAX), format!("x:{}", usize::MAX));
}

#[test]
fn emitted_argv_match_each_operation() {
    assert_eq!(new_session_args(&s("p")), argv(&["new-session", "-d", "-s", "p"]));
    assert_eq!(new_window_args(&s("p"), 3, &s("logs")), argv(&["new-window", "-t", "p:3", "-n", "logs"]));
    assert_eq!(attach_args(&s("p")), argv(&["-u", "attach-session", "-t", "p"]));
    let a = send_keys_args(&s("p"), 2, &s("tail -f log"));
    assert_eq!(a[a.len() - 2], "tail -f log");
    assert_eq!(a[a.len() - 1], "Enter");
    assert_eq!(a, argv(&["send-keys", "-t", "p:2.0", "tail -f log", "Enter"]));
}

#[test]
fn cli_args_take_command_and_path() {
    let c = CliArgs::new(&argv(&["rmuxinator", "start", "proj.toml"])).unwrap();
    assert_eq!(c.command, "start");
    assert_eq!(c.project_name, "proj.toml");
    assert!(CliArgs::new(&argv(&["rmuxinator", "start", "a.toml", "b"])).is_err());
}

#[test]
fn cli_args_missing_values_are_rejected() {
    let e = CliArgs::new(&argv(&["rmuxinator", "start"])).unwrap_err();
    assert_eq!(e, "Expected a command and a path to a project file.");
    assert!(CliArgs::new(&argv(&["rmuxinator"])).is_err());
    assert!(CliArgs::new(&[]).is_err());
}

#[test]
fn only_named_sessions_are_valid() {
    assert!(proj().is_valid());
    let unnamed = Config { name: s(""), root: s("/"), windows: vec![] };
    assert!(!unnamed.is_valid());
}

#[test]
fn renaming_a_window_changes_only_its_name_token() {
    let before = command_plan(&proj());
    let mut renamed = proj();
    renamed.windows[1].name = s("api");
    let after = command_plan(&renamed);
    assert_eq!(before.len(), after.len());
    for i in 0..before.len() {
        if i == 3 {
            assert_eq!(after[i], argv(&["new-window", "-t", "proj:1", "-n", "api"]));
            let mut expected = before[i].clone();
            expected[4] = s("api");
            assert_eq!(after[i], expected);
        } else {
            assert_eq!(after[i], before[i]);
        }
    }
}

#[test]
fn create_window_operations_follow_window_order() {
    let plan = command_plan(&proj());
    let windows: Vec<&Vec<String>> = plan.iter().filter(|o| o[0] == "new-window").collect();
    assert_eq!(windows.len(), 2);
    assert_eq!(*windows[0], argv(&["new-window", "-t", "proj:0", "-n", "editor"]));
    assert_eq!(*windows[1], argv(&["new-window", "-t", "proj:1", "-n", "server"]));
    let keys: Vec<&Vec<String>> = plan.iter().filter(|o| o[0] == "send-keys").collect();
    assert_eq!(keys.len(), 3);
    assert_eq!(keys[2][2], "proj:1.0");
    assert_eq!(keys[2][3], "echo ready");
}
