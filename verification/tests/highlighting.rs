use mcsh::McshHighlighter;

#[test]
fn empty_line_stays_empty() {
    assert_eq!(McshHighlighter.highlight("", 0), "");
}

#[test]
fn chat_is_dimmed() {
    assert_eq!(McshHighlighter.highlight("hello all", 3), "\x1b[2mhello all\x1b[0m");
}

#[test]
fn known_commands_are_gold() {
    assert_eq!(McshHighlighter.highlight("/list", 5), "\x1b[33;1m/list\x1b[0m");
    assert_eq!(McshHighlighter.highlight("/LiSt", 5), "\x1b[33;1m/LiSt\x1b[0m");
    assert_eq!(
        McshHighlighter.highlight("/tp /tmp dir", 2),
        "\x1b[33;1m/tp\x1b[0m \x1b[36m/tmp dir\x1b[0m"
    );
}

#[test]
fn aliases_are_gold() {
    assert_eq!(McshHighlighter.highlight("/cd /tmp", 3), "\x1b[33;1m/cd\x1b[0m \x1b[36m/tmp\x1b[0m");
    assert_eq!(McshHighlighter.highlight("/LS", 3), "\x1b[33;1m/LS\x1b[0m");
    assert_eq!(McshHighlighter.highlight("/cdx", 4), "\x1b[31m/cdx\x1b[0m");
}

#[test]
fn unknown_commands_are_red_and_a_lone_slash_yellow() {
    assert_eq!(McshHighlighter.highlight("/git status", 0), "\x1b[31m/git\x1b[0m \x1b[36mstatus\x1b[0m");
    assert_eq!(McshHighlighter.highlight("/", 1), "\x1b[33m/\x1b[0m");
    assert_eq!(McshHighlighter.highlight("/ x", 1), "\x1b[33m/\x1b[0m \x1b[36mx\x1b[0m");
    assert_eq!(McshHighlighter.highlight("/list ", 6), "\x1b[33;1m/list\x1b[0m");
}

#[test]
fn hints_are_dimmed_and_highlighting_is_always_on() {
    assert_eq!(McshHighlighter.highlight_hint("lp"), "\x1b[2mlp\x1b[0m");
    assert!(McshHighlighter.highlight_char("/x", 1));
}

fn visible(s: &str) -> String {
    let mut out = String::new();
    let mut in_escape = false;
    for c in s.chars() {
        if in_escape {
            if c == 'm' {
                in_escape = false;
            }
        } else if c == '\x1b' {
            in_escape = true;
        } else {
            out.push(c);
        }
    }
    out
}

#[test]
fn highlighting_keeps_the_text() {
    for line in ["", "hello world", "hi ", " ", "/tp ~/x y", "/git status", "/", "/ x", "/LIST   a"] {
        assert_eq!(visible(&McshHighlighter.highlight(line, 0)), line);
    }
    // A line whose first space is its last character loses that space.
    assert_eq!(visible(&McshHighlighter.highlight("/list ", 0)), "/list");
}
