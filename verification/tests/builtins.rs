use mcsh::builtins::{chat_line, error_msg, gamemode_text, plan_builtin, render, server_msg, Line, Paint, Plan};
use mcsh::commands::Builtin;

fn plan(cmd: Builtin, args: &str) -> Plan {
    plan_builtin(cmd, args, "alex", "/home/alex")
}

fn texts(lines: &[Line]) -> Vec<(String, Paint)> {
    lines.iter().map(|l| (l.text.clone(), l.paint)).collect()
}

fn printed(p: Plan) -> Vec<(String, Paint)> {
    match p {
        Plan::Print { lines } => texts(&lines),
        _ => panic!("expected lines to print"),
    }
}

fn server(text: &str) -> (String, Paint) {
    (format!("[Server] {}", text), Paint::Green)
}

#[test]
fn commands_without_their_argument_print_usage() {
    assert_eq!(printed(plan(Builtin::Tp, "")), vec![server("Usage: /tp <directory>")]);
    assert_eq!(printed(plan(Builtin::Build, "")), vec![server("Usage: /build <directory>")]);
    assert_eq!(printed(plan(Builtin::Destroy, "")), vec![server("Usage: /destroy <path>")]);
    assert_eq!(printed(plan(Builtin::Summon, "")), vec![server("Usage: /summon <filename>")]);
    assert_eq!(printed(plan(Builtin::Read, "")), vec![server("Usage: /read <filename>")]);
    assert_eq!(printed(plan(Builtin::Op, "")), vec![server("Usage: /op <file>")]);
    assert_eq!(printed(plan(Builtin::Smite, "")), vec![server("Usage: /smite <pid>")]);
    assert_eq!(printed(plan(Builtin::Clone, "one")), vec![server("Usage: /clone <source> <destination>")]);
    assert_eq!(printed(plan(Builtin::Move, "")), vec![server("Usage: /move <source> <destination>")]);
    assert_eq!(
        printed(plan(Builtin::Enchant, "run.sh")),
        vec![server("Usage: /enchant <file> <mode> (e.g. /enchant script.sh 755)")]
    );
    assert_eq!(printed(plan(Builtin::Give, "steve")), vec![server("Usage: /give <player> <file>")]);
}

#[test]
fn teleport_expands_a_leading_tilde() {
    match plan(Builtin::Tp, "~/games") {
        Plan::Teleport { path, done, fail } => {
            assert_eq!(path, shellexpand::tilde("~/games").to_string());
            assert_eq!((done.text, done.paint), server("Teleported to ~/games"));
            assert_eq!(fail, "Could not teleport: ");
        }
        _ => panic!("expected a teleport"),
    }
    match plan(Builtin::Tp, "/tmp/~x") {
        Plan::Teleport { path, .. } => assert_eq!(path, "/tmp/~x"),
        _ => panic!("expected a teleport"),
    }
}

#[test]
fn spawn_goes_home() {
    match plan(Builtin::Spawn, "ignored") {
        Plan::Teleport { path, done, fail } => {
            assert_eq!(path, "/home/alex");
            assert_eq!((done.text, done.paint), server("Teleported to spawn point!"));
            assert_eq!(fail, "Could not teleport to spawn: ");
        }
        _ => panic!("expected a teleport"),
    }
}

#[test]
fn list_defaults_to_the_working_directory() {
    match plan(Builtin::List, "") {
        Plan::List { path, header, fail } => {
            assert_eq!(path, ".");
            assert_eq!(header.text, "[Server] Blocks in .:");
            assert_eq!(fail, "Could not list blocks: ");
        }
        _ => panic!("expected a listing"),
    }
    match plan(Builtin::List, "src") {
        Plan::List { path, .. } => assert_eq!(path, "src"),
        _ => panic!("expected a listing"),
    }
}

#[test]
fn file_commands() {
    match plan(Builtin::Clone, "a.txt b c.txt") {
        Plan::Copy { from, to, done, fail } => {
            assert_eq!((from.as_str(), to.as_str()), ("a.txt", "b c.txt"));
            assert_eq!(done.text, "[Server] Cloned a.txt → b c.txt");
            assert_eq!(fail, "Could not clone: ");
        }
        _ => panic!("expected a copy"),
    }
    match plan(Builtin::Move, "old new") {
        Plan::Rename { from, to, done, .. } => {
            assert_eq!((from.as_str(), to.as_str()), ("old", "new"));
            assert_eq!(done.text, "[Server] Moved old → new");
        }
        _ => panic!("expected a rename"),
    }
    match plan(Builtin::Give, "steve map.txt") {
        Plan::Copy { from, to, done, fail } => {
            assert_eq!(from, "map.txt");
            assert_eq!(to, "/home/steve/map.txt");
            assert_eq!(done.text, "[Server] Gave map.txt to steve!");
            assert_eq!(fail, "Could not give item: ");
        }
        _ => panic!("expected a copy"),
    }
    match plan(Builtin::Read, "notes.txt") {
        Plan::Read { path, header, fail } => {
            assert_eq!(path, "notes.txt");
            assert_eq!(header.text, "[Server] Contents of notes.txt:");
            assert_eq!(fail, "Could not read: ");
        }
        _ => panic!("expected a read"),
    }
    assert!(matches!(plan(Builtin::Build, "a/b"), Plan::MakeDir { .. }));
    assert!(matches!(plan(Builtin::Destroy, "x"), Plan::Destroy { .. }));
    assert!(matches!(plan(Builtin::Summon, "x"), Plan::Summon { .. }));
}

#[test]
fn commands_that_run_programs() {
    match plan(Builtin::Enchant, "run.sh 755") {
        Plan::Run { program, args, before, after } => {
            assert_eq!(program, "chmod");
            assert_eq!(args, vec!["755".to_string(), "run.sh".to_string()]);
            assert!(before.is_empty());
            assert_eq!(texts(&after), vec![server("Enchanted run.sh with mode 755")]);
        }
        _ => panic!("expected a program run"),
    }
    match plan(Builtin::Op, "f") {
        Plan::Run { program, args, after, .. } => {
            assert_eq!(program, "chown");
            assert_eq!(args, vec!["root:root".to_string(), "f".to_string()]);
            assert_eq!(texts(&after), vec![server("Granted OP to: f")]);
        }
        _ => panic!("expected a program run"),
    }
    match plan(Builtin::Smite, "42") {
        Plan::Run { program, args, after, .. } => {
            assert_eq!(program, "kill");
            assert_eq!(args, vec!["42".to_string()]);
            assert_eq!(texts(&after), vec![server("⚡ Smote process 42!")]);
        }
        _ => panic!("expected a program run"),
    }
    match plan(Builtin::Entities, "whatever") {
        Plan::Run { program, args, before, after } => {
            assert_eq!(program, "ps");
            assert_eq!(args, vec!["aux".to_string()]);
            assert_eq!(texts(&before), vec![server("Entities loaded in this world:")]);
            assert!(after.is_empty());
        }
        _ => panic!("expected a program run"),
    }
    match plan(Builtin::Lag, "") {
        Plan::Run { program, args, before, .. } => {
            assert_eq!(program, "top");
            assert_eq!(args, vec!["-bn1".to_string()]);
            assert_eq!(texts(&before), vec![server("Checking server TPS (top)...")]);
        }
        _ => panic!("expected a program run"),
    }
    match plan(Builtin::Seed, "") {
        Plan::Run { program, args, before, .. } => {
            assert_eq!(program, "env");
            assert!(args.is_empty());
            assert_eq!(texts(&before), vec![server("World seed (environment variables):")]);
        }
        _ => panic!("expected a program run"),
    }
}

#[test]
fn messages_of_say_me_and_kill() {
    assert_eq!(printed(plan(Builtin::Say, "hello")), vec![("[Server] hello".to_string(), Paint::YellowBold)]);
    assert_eq!(printed(plan(Builtin::Me, "digs")), vec![("* alex digs".to_string(), Paint::ItalicWhite)]);
    match plan(Builtin::Kill, "") {
        Plan::Exit { farewell } => {
            assert_eq!(farewell.text, "[Server] Goodbye! Returning to title screen...");
            assert_eq!(farewell.paint, Paint::RedBold);
        }
        _ => panic!("expected the end"),
    }
    match plan(Builtin::Clear, "") {
        Plan::Clear { done } => assert_eq!(done.text, "[Server] Screen cleared."),
        _ => panic!("expected a clear"),
    }
    assert!(matches!(plan(Builtin::Help, ""), Plan::Help));
    assert!(matches!(plan(Builtin::Whereami, ""), Plan::Locate));
}

#[test]
fn gamemode_messages() {
    assert_eq!(
        printed(plan(Builtin::Gamemode, "CREATIVE")),
        vec![server("Game mode updated to Creative Mode. sudo who? 🧱")]
    );
    assert_eq!(
        printed(plan(Builtin::Gamemode, "0")),
        vec![server("Game mode updated to Survival Mode. Stay safe out there! 🌲")]
    );
    assert_eq!(
        printed(plan(Builtin::Gamemode, "hardcore")),
        vec![server("Game mode updated to Hardcore Mode. One mistake and it's over. 💀")]
    );
    assert_eq!(
        printed(plan(Builtin::Gamemode, "2")),
        vec![server("Game mode updated to Spectator Mode. Just watching... 👻")]
    );
    assert_eq!(
        printed(plan(Builtin::Gamemode, "adventure")),
        vec![server("Usage: /gamemode <creative|survival|hardcore|spectator>")]
    );
}

#[test]
fn rendered_messages_carry_their_colours() {
    colored::control::set_override(true);
    assert_eq!(server_msg("hi"), "\x1b[32m[Server] hi\x1b[0m");
    assert_eq!(error_msg("no"), "\x1b[31m[Server] ❌ no\x1b[0m");
    assert_eq!(chat_line("alex", "hello"), "\x1b[37m<alex> hello\x1b[0m");
    let say = Line { text: "[Server] x".to_string(), paint: Paint::YellowBold };
    assert_eq!(render(&say), "\x1b[1;33m[Server] x\x1b[0m");
    let me = Line { text: "* a b".to_string(), paint: Paint::ItalicWhite };
    assert_eq!(render(&me), "\x1b[3;37m* a b\x1b[0m");
    let bye = Line { text: "bye".to_string(), paint: Paint::RedBold };
    assert_eq!(render(&bye), "\x1b[1;31mbye\x1b[0m");
    let plain = Line { text: "plain".to_string(), paint: Paint::Plain };
    assert_eq!(render(&plain), "plain");
}

#[test]
fn give_copies_into_the_players_home() {
    match plan(Builtin::Give, "bob /tmp/a.txt") {
        Plan::Copy { from, to, done, .. } => {
            assert_eq!(from, "/tmp/a.txt");
            assert_eq!(to, "/home/bob/a.txt");
            assert_eq!(done.text, "[Server] Gave /tmp/a.txt to bob!");
        }
        _ => panic!("expected a copy"),
    }
    match plan(Builtin::Give, "bob docs/notes.md") {
        Plan::Copy { to, .. } => assert_eq!(to, "/home/bob/notes.md"),
        _ => panic!("expected a copy"),
    }
}

#[test]
fn gamemode_text_of_lower_cased_modes() {
    assert_eq!(gamemode_text("1"), "Game mode updated to Creative Mode. sudo who? 🧱");
    assert_eq!(gamemode_text("spectator"), "Game mode updated to Spectator Mode. Just watching... 👻");
    assert_eq!(gamemode_text("Creative"), "Usage: /gamemode <creative|survival|hardcore|spectator>");
}
