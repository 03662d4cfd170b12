use mcsh::listing::{key_less, listing_line, sort_entries, Entry};

fn entry(name: &str, is_dir: bool, mode: Option<u32>) -> Entry {
    Entry { name: name.to_string(), key: name.as_bytes().to_vec(), is_dir, mode }
}

#[test]
fn entries_are_sorted_by_name_bytes() {
    let sorted = sort_entries(vec![
        entry("b", false, None),
        entry("a", false, None),
        entry("B", false, None),
        entry("ab", false, None),
        entry("é", false, None),
    ]);
    let names: Vec<&str> = sorted.iter().map(|e| e.name.as_str()).collect();
    assert_eq!(names, vec!["B", "a", "ab", "b", "é"]);
}

#[test]
fn sorting_keeps_every_entry_and_is_stable() {
    let mut first = entry("same", false, Some(1));
    first.name = "first".to_string();
    let mut second = entry("same", false, Some(2));
    second.name = "second".to_string();
    let sorted = sort_entries(vec![entry("z", true, None), first, second, entry("a", true, None)]);
    let names: Vec<&str> = sorted.iter().map(|e| e.name.as_str()).collect();
    assert_eq!(names, vec!["a", "first", "second", "z"]);
    assert!(sort_entries(vec![]).is_empty());
}

#[test]
fn key_order() {
    assert!(key_less(&b"a".to_vec(), &b"b".to_vec()));
    assert!(key_less(&b"ab".to_vec(), &b"b".to_vec()));
    assert!(key_less(&b"a".to_vec(), &b"ab".to_vec()));
    assert!(!key_less(&b"ab".to_vec(), &b"ab".to_vec()));
    assert!(!key_less(&b"b".to_vec(), &b"a".to_vec()));
    assert!(key_less(&vec![], &b"a".to_vec()));
}

#[test]
fn listing_lines_show_the_kind_of_entry() {
    colored::control::set_override(true);
    assert_eq!(listing_line(&entry("src", true, Some(0o755))), Some("  📦 \x1b[1;36msrc\x1b[0m".to_string()));
    assert_eq!(listing_line(&entry("run.sh", false, Some(0o744))), Some("  ⚔️ \x1b[32mrun.sh\x1b[0m".to_string()));
    assert_eq!(listing_line(&entry("notes.txt", false, Some(0o644))), Some("  📄 notes.txt".to_string()));
    assert_eq!(listing_line(&entry("gone", false, None)), None);
}
