use mcsh::get_prompt;
use mcsh::prompt::{display_path_of, get_biome};

#[test]
fn biomes() {
    assert_eq!(get_biome("~"), "Spawn");
    assert_eq!(get_biome("/tmp"), "Nether");
    assert_eq!(get_biome("/tmp/build/out"), "Nether");
    assert_eq!(get_biome("/var/tmp"), "Cave");
    assert_eq!(get_biome("/home"), "Plains");
    assert_eq!(get_biome("/etc/ssh"), "Stronghold");
    assert_eq!(get_biome("/var/log"), "Cave");
    assert_eq!(get_biome("/usr/bin"), "Village");
    assert_eq!(get_biome("/dev"), "The End");
    assert_eq!(get_biome("/"), "Overworld");
    assert_eq!(get_biome("~/projects"), "Overworld");
    assert_eq!(get_biome("~/tmp"), "Overworld");
    assert_eq!(get_biome("/opt"), "Overworld");
    assert_eq!(get_biome("/srv/devops"), "Overworld");
    assert_eq!(get_biome("/tmpfiles"), "Overworld");
    assert_eq!(get_biome("~alex"), "Overworld");
    assert_eq!(get_biome("/home/alex/etc"), "Plains");
}

#[test]
fn home_is_shown_as_tilde() {
    assert_eq!(display_path_of("/home/alex", "/home/alex"), "~");
    assert_eq!(display_path_of("/home/alex/games", "/home/alex"), "~/games");
    assert_eq!(display_path_of("/etc", "/home/alex"), "/etc");
    assert_eq!(display_path_of("/etc", ""), "~/etc");
}

#[test]
fn prompt_text() {
    colored::control::set_override(true);
    assert_eq!(
        get_prompt("/home/alex", "/home/alex", "alex"),
        "\x1b[1;32m[alex @ Spawn]\x1b[0m \x1b[33m~\x1b[0m \x1b[1;37m>\x1b[0m "
    );
    assert_eq!(
        get_prompt("/tmp", "/home/alex", "Steve"),
        "\x1b[1;32m[Steve @ Nether]\x1b[0m \x1b[33m/tmp\x1b[0m \x1b[1;37m>\x1b[0m "
    );
}

fn strip(s: &str) -> String {
    let mut out = String::new();
    let mut in_escape = false;
    for c in s.chars() {
        if in_escape {
            if c == 'm' {
                in_escape = false;
            }
        } else if c == '\x1b' {
            in_escape = true;
        } else {
            out.push(c);
        }
    }
    out
}

#[test]
fn prompt_reads_plainly_without_colours() {
    colored::control::set_override(true);
    assert_eq!(strip(&get_prompt("/home/steve", "/home/steve", "steve")), "[steve @ Spawn] ~ > ");
    assert_eq!(strip(&get_prompt("/srv/devops", "/home/steve", "Steve")), "[Steve @ Overworld] /srv/devops > ");
    colored::control::set_override(false);
    assert_eq!(get_prompt("/var/log", "/home/steve", "steve"), "[steve @ Cave] /var/log > ");
    colored::control::unset_override();
}
