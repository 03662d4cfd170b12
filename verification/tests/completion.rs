use mcsh::completer::{command_completions, Candidate, CompletionPlan};
use mcsh::listing::Entry;
use mcsh::McshCompleter;

fn pairs(c: Vec<Candidate>) -> Vec<(String, String)> {
    c.into_iter().map(|c| (c.display, c.replacement)).collect()
}

fn ready(line: &str, pos: usize) -> (usize, Vec<(String, String)>) {
    match McshCompleter::new().plan(line, pos) {
        CompletionPlan::Ready { start, candidates } => (start, pairs(candidates)),
        CompletionPlan::Files { .. } => panic!("expected a ready completion"),
    }
}

fn files(line: &str, pos: usize) -> (usize, Option<String>, String) {
    match McshCompleter::new().plan(line, pos) {
        CompletionPlan::Files { start, dir, prefix } => (start, dir, prefix),
        CompletionPlan::Ready { .. } => panic!("expected a file completion"),
    }
}

fn entry(name: &str, is_dir: bool) -> Entry {
    Entry { name: name.to_string(), key: name.as_bytes().to_vec(), is_dir, mode: None }
}

#[test]
fn completes_command_words() {
    assert_eq!(ready("/he", 3), (0, vec![("/help".to_string(), "/help ".to_string())]));
    let (start, c) = ready("/s", 2);
    assert_eq!(start, 0);
    let shown: Vec<&str> = c.iter().map(|p| p.0.as_str()).collect();
    assert_eq!(shown, vec!["/spawn", "/summon", "/smite", "/seed", "/say"]);
    assert_eq!(ready("/", 1).1.len(), 24);
    assert_eq!(ready("/xyz", 4), (0, vec![]));
}

#[test]
fn command_prefix_is_lower_cased() {
    assert_eq!(ready("/HE", 3), (0, vec![("/help".to_string(), "/help ".to_string())]));
}

#[test]
fn completes_only_up_to_the_cursor() {
    assert_eq!(ready("/helpme", 3), (0, vec![("/help".to_string(), "/help ".to_string())]));
}

#[test]
fn chat_is_not_completed() {
    assert_eq!(ready("hello", 5), (5, vec![]));
    assert_eq!(ready("", 0), (0, vec![]));
}

#[test]
fn arguments_complete_file_names() {
    assert_eq!(files("/list ma", 8), (6, None, "ma".to_string()));
    assert_eq!(files("/list src/ma", 12), (6, Some("src/".to_string()), "ma".to_string()));
    assert_eq!(files("/clone a /tmp/x/", 16), (9, Some("/tmp/x/".to_string()), String::new()));
    assert_eq!(files("/read é ab", 11), (9, None, "ab".to_string()));
    assert_eq!(files("/read é ab", 10), (9, None, "a".to_string()));
}

#[test]
fn file_candidates_follow_name_order() {
    let c = McshCompleter::new();
    let entries = vec![entry("main.rs", false), entry("lib", true), entry("map.txt", false), entry("Makefile", false)];
    assert_eq!(
        pairs(c.file_candidates(&None, "ma", entries)),
        vec![
            ("main.rs".to_string(), "main.rs".to_string()),
            ("map.txt".to_string(), "map.txt".to_string()),
        ]
    );
    let entries = vec![entry("main.rs", false), entry("maps", true)];
    assert_eq!(
        pairs(c.file_candidates(&Some("src/".to_string()), "", entries)),
        vec![
            ("main.rs".to_string(), "src/main.rs".to_string()),
            ("maps".to_string(), "src/maps/".to_string()),
        ]
    );
    assert_eq!(pairs(c.file_candidates(&None, "zz", vec![entry("a", true)])), vec![]);
}

#[test]
fn command_completions_of_lower_cased_words() {
    assert_eq!(
        pairs(command_completions("/gi")),
        vec![("/give".to_string(), "/give ".to_string())]
    );
    assert!(command_completions("/GI").is_empty());
    assert_eq!(command_completions("/").len(), 24);
}

#[test]
fn completion_starts_at_a_boundary_before_the_cursor() {
    let line = "/tp é ü/ß";
    for pos in 0..=line.len() {
        if !line.is_char_boundary(pos) {
            continue;
        }
        let start = match McshCompleter::new().plan(line, pos) {
            CompletionPlan::Ready { start, .. } => start,
            CompletionPlan::Files { start, .. } => start,
        };
        assert!(start <= pos);
        assert!(line.is_char_boundary(start));
    }
}
