use mcsh::commands::{all_commands, builtin_named, is_history_request, parse_request, Builtin, Request};

fn raw(input: &str) -> Option<(String, Vec<String>)> {
    match parse_request(input) {
        Request::Raw { program, argv } => Some((program, argv)),
        _ => None,
    }
}

fn builtin(input: &str) -> Option<(Builtin, String)> {
    match parse_request(input) {
        Request::Builtin { command, args } => Some((command, args)),
        _ => None,
    }
}

#[test]
fn blank_lines_do_nothing() {
    assert!(matches!(parse_request(""), Request::Blank));
    assert!(matches!(parse_request("  \t \n"), Request::Blank));
}

#[test]
fn text_without_slash_is_chat() {
    match parse_request("  hello everyone  ") {
        Request::Chat { text } => assert_eq!(text, "hello everyone"),
        _ => panic!("expected chat"),
    }
    match parse_request("hi /tp there") {
        Request::Chat { text } => assert_eq!(text, "hi /tp there"),
        _ => panic!("expected chat"),
    }
}

#[test]
fn builtins_are_recognised_with_their_arguments() {
    assert_eq!(builtin("/tp ~/games"), Some((Builtin::Tp, "~/games".to_string())));
    assert_eq!(builtin("/clone a.txt b dir/c.txt"), Some((Builtin::Clone, "a.txt b dir/c.txt".to_string())));
    assert_eq!(builtin("/list"), Some((Builtin::List, String::new())));
    assert_eq!(builtin("  /say   hi  "), Some((Builtin::Say, "  hi".to_string())));
}

#[test]
fn builtin_names_are_case_insensitive() {
    assert_eq!(builtin("/TP /tmp"), Some((Builtin::Tp, "/tmp".to_string())));
    assert_eq!(builtin("/GameMode creative"), Some((Builtin::Gamemode, "creative".to_string())));
}

#[test]
fn unknown_slash_commands_run_raw() {
    assert_eq!(raw("/Git status  -s"), Some(("git".to_string(), vec!["status".to_string(), "-s".to_string()])));
    assert_eq!(raw("/python3"), Some(("python3".to_string(), vec![])));
    assert_eq!(raw("/history"), Some(("history".to_string(), vec![])));
}

#[test]
fn lines_with_pipes_are_pipelines() {
    match parse_request(" /cat f.txt | /wc -l ") {
        Request::Pipeline { line } => assert_eq!(line, "/cat f.txt | /wc -l"),
        _ => panic!("expected a pipeline"),
    }
    assert!(matches!(parse_request("say | this"), Request::Chat { .. }));
}

#[test]
fn only_kill_ends_the_session() {
    assert!(parse_request("/kill").ends_session());
    assert!(parse_request("/KILL now").ends_session());
    assert!(!parse_request("/killall x").ends_session());
    assert!(!parse_request("kill").ends_session());
    // KELVIN SIGN lower-cases to an ASCII `k`.
    assert!(parse_request("/\u{212a}ILL").ends_session());
}

#[test]
fn history_request_is_exact() {
    assert!(is_history_request("/history"));
    assert!(!is_history_request("/History"));
    assert!(!is_history_request("/history "));
}

#[test]
fn command_table() {
    let cmds = all_commands();
    assert_eq!(cmds.len(), 24);
    assert_eq!(cmds[0], "/tp");
    assert_eq!(cmds[23], "/give");
    assert_eq!(builtin_named("summon"), Some(Builtin::Summon));
    assert_eq!(builtin_named("history"), None);
    assert_eq!(builtin_named("Tp"), None);
}

#[test]
fn readme_examples() {
    assert_eq!(builtin("/list"), Some((Builtin::List, String::new())));
    assert_eq!(raw("/python3 script.py"), Some(("python3".to_string(), vec!["script.py".to_string()])));
    match parse_request("hello everyone") {
        Request::Chat { text } => {
            colored::control::set_override(true);
            assert_eq!(mcsh::builtins::chat_line("Steve", &text), "\x1b[37m<Steve> hello everyone\x1b[0m");
        }
        _ => panic!("expected chat"),
    }
    assert_eq!(raw("/git status"), Some(("git".to_string(), vec!["status".to_string()])));
    assert!(matches!(parse_request("/cat file.txt | /grep something"), Request::Pipeline { .. }));
}

#[test]
fn aliases_run_their_builtins() {
    assert_eq!(builtin("/cd /tmp"), Some((Builtin::Tp, "/tmp".to_string())));
    assert_eq!(builtin("/pwd"), Some((Builtin::Whereami, String::new())));
    assert_eq!(builtin("/LS"), Some((Builtin::List, String::new())));
    assert_eq!(builtin("/ls src"), Some((Builtin::List, "src".to_string())));
    assert_eq!(builtin("/mkdir new"), Some((Builtin::Build, "new".to_string())));
    assert_eq!(builtin("/rm old"), Some((Builtin::Destroy, "old".to_string())));
    assert_eq!(builtin("/touch f"), Some((Builtin::Summon, "f".to_string())));
    assert_eq!(builtin("/cp a b"), Some((Builtin::Clone, "a b".to_string())));
    assert_eq!(builtin("/mv a b"), Some((Builtin::Move, "a b".to_string())));
    assert_eq!(builtin("/cat f"), Some((Builtin::Read, "f".to_string())));
    assert_eq!(builtin("/ps"), Some((Builtin::Entities, String::new())));
    assert_eq!(builtin("/top"), Some((Builtin::Lag, String::new())));
    assert_eq!(builtin("/env"), Some((Builtin::Seed, String::new())));
    assert_eq!(builtin_named("cd"), builtin_named("tp"));
    assert_eq!(raw("/cdx"), Some(("cdx".to_string(), vec![])));
}
