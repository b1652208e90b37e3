use frame_host::server::{FactorioServer, LaunchPlan, Server, StopPlan};

fn configured() -> Server {
    let mut s = Server::new("/opt".to_string());
    s.parent("factorio".to_string()).child("bin/x64/factorio".to_string());
    s.output("/tmp/out.txt".to_string());
    s
}

#[test]
fn new_server_is_empty() {
    let s = Server::new("/opt".to_string());
    assert_eq!(s.root, "/opt");
    assert_eq!(s.parent, None);
    assert_eq!(s.child, None);
    assert_eq!(s.output, None);
    assert!(s.args.is_empty());
    assert_eq!(s.cwd, None);
    assert!(!s.started);
}

#[test]
fn builder_sets_fields_and_keeps_argument_order() {
    let mut s = configured();
    s.arg("--start-server".to_string());
    s.args(&["a".to_string(), "b".to_string()]).arg("c".to_string());
    s.cwd("/srv".to_string());
    assert_eq!(s.args, vec!["--start-server", "a", "b", "c"]);
    assert_eq!(s.parent.as_deref(), Some("factorio"));
    assert_eq!(s.child.as_deref(), Some("bin/x64/factorio"));
    assert_eq!(s.output.as_deref(), Some("/tmp/out.txt"));
    assert_eq!(s.cwd.as_deref(), Some("/srv"));
}

#[test]
fn setting_a_field_twice_keeps_the_last_value() {
    let mut s = configured();
    s.parent("first".to_string()).parent("second".to_string());
    assert_eq!(s.parent.as_deref(), Some("second"));
}

#[test]
fn show_details_lists_root_parent_child() {
    let s = configured();
    assert_eq!(
        s.show_details(),
        vec!["Root: /opt", "Parent: factorio", "child: bin/x64/factorio"]
    );
}

#[test]
fn start_plans_the_program_under_root() {
    let mut s = configured();
    s.arg("--start-server".to_string());
    let plan = s.start();
    assert_eq!(
        plan,
        LaunchPlan {
            program: "/opt/factorio/bin/x64/factorio".to_string(),
            args: vec!["--start-server".to_string()],
            stdout: "/tmp/out.txt".to_string(),
            stdin_piped: true,
        }
    );
    assert!(s.started);
}

#[test]
fn start_with_absolute_child_runs_the_child() {
    let mut s = configured();
    s.child("/usr/bin/true".to_string());
    assert_eq!(s.start().program, "/usr/bin/true");
}

#[test]
fn stop_writes_quit() {
    let mut s = configured();
    s.start();
    let before = s.clone();
    assert_eq!(
        s.stop(),
        StopPlan {
            command: "/quit".to_string(),
            on_failure: "Server is not running.".to_string(),
        }
    );
    assert_eq!(s, before);
}

fn factorio() -> FactorioServer {
    FactorioServer {
        parent_dir: "/opt/factorio".to_string(),
        game_dir: "/opt/factorio/bin/x64/factorio".to_string(),
        saves_dir: "/opt/factorio/saves".to_string(),
        save: "test.zip".to_string(),
        game_version: "0.18.24".to_string(),
    }
}

#[test]
fn factorio_show_details() {
    assert_eq!(factorio().show_details(), "Factorio version: 0.18.24");
}

#[test]
fn factorio_start_runs_the_save() {
    let plan = factorio().start("out.txt".to_string());
    assert_eq!(plan.program, "/opt/factorio/bin/x64/factorio");
    assert_eq!(plan.args, vec!["--start-server", "/opt/factorio/saves/test.zip"]);
    assert_eq!(plan.stdout, "out.txt");
    assert!(!plan.stdin_piped);
}

#[test]
fn adding_arguments_at_once_or_one_by_one_agree() {
    let given = vec!["a".to_string(), "b".to_string(), "c".to_string()];
    let mut at_once = configured();
    at_once.arg("x".to_string()).args(&given);
    let mut one_by_one = configured();
    one_by_one.arg("x".to_string());
    for g in given.iter() {
        one_by_one.arg(g.clone());
    }
    assert_eq!(at_once, one_by_one);
}

#[test]
fn new_server_logs_to_frame_host_file() {
    let setup = Server::log_setup();
    assert_eq!(setup.sink, "log-frame-host.txt");
    assert_eq!(setup.greeting, "Initializing frame-host!");
}
