use mcsh::builtins::{connection_lost_line, history_heading, location_message, unknown_command_line, Paint};
use mcsh::screens::{get_history_path, help_lines, history_line, motd_lines, render_help_line, HelpLine};

#[test]
fn history_lines_number_entries() {
    colored::control::set_override(true);
    assert_eq!(history_line(7, "ls"), "    7  \x1b[2mls\x1b[0m");
    assert_eq!(history_line(42, "/tp ~"), "   42  \x1b[2m/tp ~\x1b[0m");
    assert_eq!(history_line(1234, "x"), "  1234  \x1b[2mx\x1b[0m");
    assert_eq!(history_line(0, "y"), "    0  \x1b[2my\x1b[0m");
}

#[test]
fn history_file() {
    assert_eq!(get_history_path("/home/alex"), "/home/alex/.mcsh_history");
    assert_eq!(get_history_path("."), "./.mcsh_history");
}

#[test]
fn help_menu() {
    let lines = help_lines();
    assert_eq!(lines.len(), 38);
    assert!(matches!(lines[0], HelpLine::Title("\n[Server] Available Commands:\n")));
    assert!(matches!(lines[1], HelpLine::Section("🗺️  Navigation")));
    assert!(matches!(lines[2], HelpLine::Entry("/tp <dir>", "Teleport to a directory")));
    assert!(matches!(lines[37], HelpLine::Tip("💬 Tip: Text without / is sent as chat.\n")));
    let entries = lines.iter().filter(|l| matches!(l, HelpLine::Entry(..))).count();
    assert_eq!(entries, 24);
}

#[test]
fn help_lines_render() {
    colored::control::set_override(true);
    assert_eq!(
        render_help_line(&HelpLine::Entry("/spawn", "Go to home directory")),
        format!("  \x1b[33m/spawn{}\x1b[0m Go to home directory", " ".repeat(24))
    );
    assert_eq!(render_help_line(&HelpLine::Blank), "");
    assert_eq!(render_help_line(&HelpLine::Section("S")), "\x1b[1;36mS\x1b[0m");
    assert_eq!(render_help_line(&HelpLine::Tip("t")), "\x1b[2mt\x1b[0m");
    assert_eq!(render_help_line(&HelpLine::Title("T")), "\x1b[1;32mT\x1b[0m");
}

#[test]
fn welcome_banner() {
    let lines = motd_lines();
    assert_eq!(lines.len(), 15);
    assert_eq!(lines[0].text, "");
    assert_eq!(lines[0].paint, Paint::Plain);
    assert_eq!(lines[8].text, "  Minecraft Shell v0.1.0");
    assert_eq!(lines[8].paint, Paint::YellowBold);
    assert_eq!(lines[13].text, "  [Server] Text without / will be sent as chat.");
    assert_eq!(lines[13].paint, Paint::Green);
}

#[test]
fn fixed_messages() {
    colored::control::set_override(true);
    assert_eq!(unknown_command_line(), "\x1b[31mUnknown command. Type \"/help\" for a list of commands.\x1b[0m");
    assert_eq!(connection_lost_line(), "\x1b[31m[Server] Connection lost. See you next time!\x1b[0m");
    assert_eq!(history_heading(), "\x1b[32m[Server] Command History:\x1b[0m");
    assert_eq!(location_message("/tmp"), "Your coordinates: /tmp");
}
