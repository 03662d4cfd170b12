use mcsh::completer::CompletionPlan;
use mcsh::{CommandHint, McshHinter};

fn hint(line: &str, pos: usize) -> Option<String> {
    McshHinter.hint(line, pos).map(|h| h.display().to_string())
}

#[test]
fn hint_completes_the_only_matching_command() {
    assert_eq!(hint("/he", 3), Some("lp".to_string()));
    assert_eq!(hint("/ki", 3), Some("ll".to_string()));
    assert_eq!(hint("/wh", 3), Some("ereami".to_string()));
    assert_eq!(hint("/g", 2), None);
    assert_eq!(hint("/ga", 3), Some("memode".to_string()));
}

#[test]
fn no_hint_when_ambiguous_complete_or_elsewhere() {
    assert_eq!(hint("/s", 2), None);
    assert_eq!(hint("/help", 5), None);
    assert_eq!(hint("/he", 2), None);
    assert_eq!(hint("", 0), None);
    assert_eq!(hint("he", 2), None);
    assert_eq!(hint("/he x", 5), None);
    assert_eq!(hint("/HE", 3), None);
}

#[test]
fn command_hint_shows_and_inserts_its_text() {
    let h = CommandHint::new("lp".to_string());
    assert_eq!(h.display(), "lp");
    assert_eq!(h.completion(), Some("lp"));
}

#[test]
fn hint_needs_the_cursor_at_the_end_in_bytes() {
    // "/é" is three bytes long.
    assert_eq!(hint("/é", 2), None);
    assert_eq!(hint("/é", 3), None);
    assert_eq!(hint("/he", 7), Some("lp".to_string()));
}

#[test]
fn tab_completes_what_the_hint_shows() {
    for line in ["/he", "/wh", "/ga", "/ki", "/ent", "/cle", "/hi"] {
        let shown = hint(line, line.len()).expect("a hint");
        match mcsh::McshCompleter::new().plan(line, line.len()) {
            CompletionPlan::Ready { start, candidates } => {
                assert_eq!(start, 0);
                assert_eq!(candidates.len(), 1);
                assert_eq!(candidates[0].display, format!("{}{}", line, shown));
                assert_eq!(candidates[0].replacement, format!("{}{} ", line, shown));
            }
            CompletionPlan::Files { .. } => panic!("expected command completion"),
        }
    }
}
