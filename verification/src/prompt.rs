//! The prompt: who is playing, in which biome, at which coordinates.

use vstd::prelude::*;

use crate::highlighter::{lemma_visible_plain, lemma_visible_styled, visible};
use crate::style::{green_bold, green_bold_code, styled, white_bold, white_bold_code, yellow, yellow_code};
use crate::text::{chars_of, concat2, concat3, concat4, starts_with_str, string_of, text_eq};

verus! {

/// The working directory as the prompt shows it: with the home directory
/// at its start replaced by `~`.
pub open spec fn display_path(cwd: Seq<char>, home: Seq<char>) -> Seq<char> {
    if home.is_prefix_of(cwd) {
        "~"@ + cwd.skip(home.len() as int)
    } else {
        cwd
    }
}

/// Whether `path` is the directory `dir` or lies under it.
pub open spec fn in_dir(path: Seq<char>, dir: Seq<char>) -> bool {
    path == dir || (dir + "/"@).is_prefix_of(path)
}

/// The biome of a (displayed) path: Spawn at home (exactly `~`), Nether in
/// `/tmp`, Plains in `/home`, Stronghold in `/etc`, Cave in `/var`, Village in
/// `/usr` and The End in `/dev`, each directory with everything under it;
/// Overworld anywhere else.
pub open spec fn biome_of(path: Seq<char>) -> Seq<char> {
    if path == "~"@ {
        "Spawn"@
    } else if in_dir(path, "/tmp"@) {
        "Nether"@
    } else if in_dir(path, "/home"@) {
        "Plains"@
    } else if in_dir(path, "/etc"@) {
        "Stronghold"@
    } else if in_dir(path, "/var"@) {
        "Cave"@
    } else if in_dir(path, "/usr"@) {
        "Village"@
    } else if in_dir(path, "/dev"@) {
        "The End"@
    } else {
        "Overworld"@
    }
}

/// Whether `path` is the directory `dir` or lies under it.
pub fn is_in_dir(path: &str, dir: &str) -> (r: bool)
    ensures
        r == in_dir(path@, dir@),
{
    if text_eq(path, dir) {
        return true;
    }
    let sub = concat2(dir, "/");
    starts_with_str(path, sub.as_str())
}

/// The working directory as the prompt shows it.
pub fn display_path_of(cwd: &str, home: &str) -> (r: String)
    ensures
        r@ == display_path(cwd@, home@),
{
    if starts_with_str(cwd, home) {
        let c = chars_of(cwd);
        let h = chars_of(home);
        let rest = string_of(&c, h.len(), c.len());
        assert(rest@ =~= cwd@.skip(home@.len() as int));
        concat2("~", rest.as_str())
    } else {
        cwd.to_owned()
    }
}

/// The biome of a (displayed) path.
pub fn get_biome(path: &str) -> (r: &'static str)
    ensures
        r@ == biome_of(path@),
{
    if text_eq(path, "~") {
        "Spawn"
    } else if is_in_dir(path, "/tmp") {
        "Nether"
    } else if is_in_dir(path, "/home") {
        "Plains"
    } else if is_in_dir(path, "/etc") {
        "Stronghold"
    } else if is_in_dir(path, "/var") {
        "Cave"
    } else if is_in_dir(path, "/usr") {
        "Village"
    } else if is_in_dir(path, "/dev") {
        "The End"
    } else {
        "Overworld"
    }
}

/// The tag of the prompt: `[user @ biome]`.
pub open spec fn prompt_tag(cwd: Seq<char>, home: Seq<char>, user: Seq<char>) -> Seq<char> {
    "["@ + user + " @ "@ + biome_of(display_path(cwd, home)) + "]"@
}

/// `r` is a rendering of the prompt for `user` standing in `cwd` with home
/// `home`: the tag in bold green, the displayed path in yellow and `>` in
/// bold white, each followed by a space.
pub open spec fn prompt_rendering(cwd: Seq<char>, home: Seq<char>, user: Seq<char>, r: Seq<char>) -> bool {
    exists|a: Seq<char>, b: Seq<char>, c: Seq<char>|
        {
            &&& styled(prompt_tag(cwd, home, user), green_bold_code(), a)
            &&& styled(display_path(cwd, home), yellow_code(), b)
            &&& styled(">"@, white_bold_code(), c)
            &&& r == a + " "@ + b + " "@ + c + " "@
        }
}

/// The prompt for `user` standing in `cwd` with home `home`:
/// `[user @ biome]` in bold green, the displayed path in yellow and `>` in
/// bold white, each followed by a space.
pub fn get_prompt(cwd: &str, home: &str, user: &str) -> (r: String)
    ensures
        prompt_rendering(cwd@, home@, user@, r@),
{
    let shown = display_path_of(cwd, home);
    let biome = get_biome(shown.as_str());
    let tag = concat4("[", user, " @ ", biome);
    let tag = concat2(tag.as_str(), "]");
    let a = green_bold(tag.as_str());
    let b = yellow(shown.as_str());
    let c = white_bold(">");
    let ab = concat3(a.as_str(), " ", b.as_str());
    let r = concat4(ab.as_str(), " ", c.as_str(), " ");
    assert(tag@ == "["@ + user@ + " @ "@ + biome_of(display_path(cwd@, home@)) + "]"@);
    r
}

/// At home the prompt shows `~`, in the Spawn biome.
pub proof fn law_home_is_spawn(home: Seq<char>)
    ensures
        display_path(home, home) == "~"@,
        biome_of(display_path(home, home)) == "Spawn"@,
{
    assert(home.skip(home.len() as int) =~= Seq::<char>::empty());
    assert("~"@ + Seq::<char>::empty() =~= "~"@);
}

/// Neither of two texts holds `c`, so their concatenation does not.
proof fn lemma_concat_lacks(x: Seq<char>, y: Seq<char>, c: char)
    requires
        !x.contains(c),
        !y.contains(c),
    ensures
        !(x + y).contains(c),
{
    if (x + y).contains(c) {
        let k = choose|k: int| 0 <= k < (x + y).len() && (x + y)[k] == c;
        if k < x.len() {
            assert(x[k] == c);
        } else {
            assert(y[k - x.len()] == c);
        }
    }
}

/// A biome's name holds no escape character.
proof fn lemma_biome_plain(path: Seq<char>)
    ensures
        !biome_of(path).contains('\x1b'),
{
    reveal_strlit("Spawn");
    reveal_strlit("Nether");
    reveal_strlit("Plains");
    reveal_strlit("Stronghold");
    reveal_strlit("Cave");
    reveal_strlit("Village");
    reveal_strlit("The End");
    reveal_strlit("Overworld");
    let b = biome_of(path);
    if b.contains('\x1b') {
        let k = choose|k: int| 0 <= k < b.len() && b[k] == '\x1b';
        assert(b[k] != '\x1b');
    }
}

/// With its colours removed the prompt reads `[user @ biome] path > `, for
/// every user name, working directory and home directory that hold no escape
/// character.
pub proof fn law_prompt_reads_plainly(cwd: Seq<char>, home: Seq<char>, user: Seq<char>, r: Seq<char>)
    requires
        !cwd.contains('\x1b'),
        !user.contains('\x1b'),
        prompt_rendering(cwd, home, user, r),
    ensures
        visible(r) == prompt_tag(cwd, home, user) + " "@ + display_path(cwd, home) + " > "@,
{
    reveal_strlit("[");
    reveal_strlit(" @ ");
    reveal_strlit("]");
    reveal_strlit(" ");
    reveal_strlit(">");
    reveal_strlit(" > ");
    reveal_strlit("~");
    let (a, b, c) = choose|a: Seq<char>, b: Seq<char>, c: Seq<char>|
        {
            &&& styled(prompt_tag(cwd, home, user), green_bold_code(), a)
            &&& styled(display_path(cwd, home), yellow_code(), b)
            &&& styled(">"@, white_bold_code(), c)
            &&& r == a + " "@ + b + " "@ + c + " "@
        };
    let tag = prompt_tag(cwd, home, user);
    let shown = display_path(cwd, home);
    let e = Seq::<char>::empty();
    let sp = " "@;
    assert(!sp.contains('\x1b')) by {
        if sp.contains('\x1b') {
            let k = choose|k: int| 0 <= k < sp.len() && sp[k] == '\x1b';
            assert(sp[k] == ' ');
        }
    }
    assert(!">"@.contains('\x1b')) by {
        if ">"@.contains('\x1b') {
            let k = choose|k: int| 0 <= k < ">"@.len() && ">"@[k] == '\x1b';
            assert(">"@[k] == '>');
        }
    }
    assert(!shown.contains('\x1b')) by {
        if home.is_prefix_of(cwd) {
            let rest = cwd.skip(home.len() as int);
            assert(!rest.contains('\x1b')) by {
                if rest.contains('\x1b') {
                    let k = choose|k: int| 0 <= k < rest.len() && rest[k] == '\x1b';
                    assert(cwd[k + home.len()] == '\x1b');
                }
            }
            assert(!"~"@.contains('\x1b')) by {
                if "~"@.contains('\x1b') {
                    let k = choose|k: int| 0 <= k < "~"@.len() && "~"@[k] == '\x1b';
                    assert("~"@[k] == '~');
                }
            }
            lemma_concat_lacks("~"@, rest, '\x1b');
        }
    }
    assert(!tag.contains('\x1b')) by {
        assert(!"["@.contains('\x1b')) by {
            if "["@.contains('\x1b') {
                let k = choose|k: int| 0 <= k < "["@.len() && "["@[k] == '\x1b';
                assert("["@[k] == '[');
            }
        }
        assert(!"]"@.contains('\x1b')) by {
            if "]"@.contains('\x1b') {
                let k = choose|k: int| 0 <= k < "]"@.len() && "]"@[k] == '\x1b';
                assert("]"@[k] == ']');
            }
        }
        assert(!" @ "@.contains('\x1b')) by {
            if " @ "@.contains('\x1b') {
                let k = choose|k: int| 0 <= k < " @ "@.len() && " @ "@[k] == '\x1b';
                assert(" @ "@[k] != '\x1b');
            }
        }
        lemma_biome_plain(shown);
        lemma_concat_lacks("["@, user, '\x1b');
        lemma_concat_lacks("["@ + user, " @ "@, '\x1b');
        lemma_concat_lacks("["@ + user + " @ "@, biome_of(shown), '\x1b');
        lemma_concat_lacks("["@ + user + " @ "@ + biome_of(shown), "]"@, '\x1b');
    }
    assert(!green_bold_code().contains('m')) by {
        let g = green_bold_code();
        if g.contains('m') {
            let k = choose|k: int| 0 <= k < g.len() && g[k] == 'm';
        }
    }
    assert(!yellow_code().contains('m')) by {
        let g = yellow_code();
        if g.contains('m') {
            let k = choose|k: int| 0 <= k < g.len() && g[k] == 'm';
        }
    }
    assert(!white_bold_code().contains('m')) by {
        let g = white_bold_code();
        if g.contains('m') {
            let k = choose|k: int| 0 <= k < g.len() && g[k] == 'm';
        }
    }
    lemma_visible_plain(sp, e);
    lemma_visible_styled(">"@, white_bold_code(), c, sp);
    lemma_visible_plain(sp, c + sp);
    lemma_visible_styled(shown, yellow_code(), b, sp + c + sp);
    lemma_visible_plain(sp, b + sp + c + sp);
    lemma_visible_styled(tag, green_bold_code(), a, sp + b + sp + c + sp);
    assert(r =~= a + (sp + b + sp + c + sp));
    assert(sp + b + sp + c + sp =~= sp + (b + sp + c + sp));
    assert(b + sp + c + sp =~= b + (sp + c + sp));
    assert(sp + c + sp =~= sp + (c + sp));
    assert(visible(e) == e);
    assert(sp + e =~= sp);
    assert(" > "@ =~= sp + ">"@ + sp);
    assert(visible(r) =~= tag + sp + shown + " > "@);
}

/// `path` is the directory `dir` or lies under it, for `dir` and for
/// everything after `dir` and a slash.
proof fn lemma_in_own_dir(dir: Seq<char>, rest: Seq<char>)
    ensures
        in_dir(dir, dir),
        in_dir(dir + "/"@ + rest, dir),
        forall|k: int| 0 <= k < dir.len() ==> #[trigger] (dir + "/"@ + rest)[k] == dir[k],
{
    let p = dir + "/"@ + rest;
    assert((dir + "/"@).is_prefix_of(p)) by {
        assert(p.subrange(0, (dir + "/"@).len() as int) =~= dir + "/"@);
    }
}

/// A path that differs from `dir` at position `k` (within both) is neither
/// `dir` nor under it.
proof fn lemma_not_in_dir(path: Seq<char>, dir: Seq<char>, k: int)
    requires
        0 <= k < dir.len(),
        k < path.len(),
        path[k] != dir[k],
    ensures
        !in_dir(path, dir),
{
    if (dir + "/"@).is_prefix_of(path) {
        assert(path.subrange(0, (dir + "/"@).len() as int)[k] == (dir + "/"@)[k]);
    }
}

/// Each directory of the biome table has its biome, and so has every path
/// under it: `/tmp` is the Nether, `/home` the Plains, `/etc` the
/// Stronghold, `/var` a Cave, `/usr` a Village and `/dev` The End; home
/// itself (`~`) is Spawn.
pub proof fn law_biome_directories(rest: Seq<char>)
    ensures
        biome_of("~"@) == "Spawn"@,
        biome_of("/tmp"@) == "Nether"@ && biome_of("/tmp"@ + "/"@ + rest) == "Nether"@,
        biome_of("/home"@) == "Plains"@ && biome_of("/home"@ + "/"@ + rest) == "Plains"@,
        biome_of("/etc"@) == "Stronghold"@ && biome_of("/etc"@ + "/"@ + rest) == "Stronghold"@,
        biome_of("/var"@) == "Cave"@ && biome_of("/var"@ + "/"@ + rest) == "Cave"@,
        biome_of("/usr"@) == "Village"@ && biome_of("/usr"@ + "/"@ + rest) == "Village"@,
        biome_of("/dev"@) == "The End"@ && biome_of("/dev"@ + "/"@ + rest) == "The End"@,
{
    reveal_strlit("~");
    reveal_strlit("/");
    reveal_strlit("/tmp");
    reveal_strlit("/home");
    reveal_strlit("/etc");
    reveal_strlit("/var");
    reveal_strlit("/usr");
    reveal_strlit("/dev");
    assert("/tmp"@.len() == 4 && "/tmp"@[0] == '/' && "/tmp"@[1] == 't');
    assert("/home"@.len() == 5 && "/home"@[0] == '/' && "/home"@[1] == 'h');
    assert("/etc"@.len() == 4 && "/etc"@[0] == '/' && "/etc"@[1] == 'e');
    assert("/var"@.len() == 4 && "/var"@[0] == '/' && "/var"@[1] == 'v');
    assert("/usr"@.len() == 4 && "/usr"@[0] == '/' && "/usr"@[1] == 'u');
    assert("/dev"@.len() == 4 && "/dev"@[0] == '/' && "/dev"@[1] == 'd');
    assert("~"@.len() == 1 && "~"@[0] == '~');
    assert("/tmp"@ != "~"@) by {
        assert(("/tmp"@)[0] != "~"@[0]);
    }
    lemma_not_in_dir("/tmp"@, "/home"@, 1);
    lemma_not_in_dir("/tmp"@, "/etc"@, 1);
    lemma_not_in_dir("/tmp"@, "/var"@, 1);
    lemma_not_in_dir("/tmp"@, "/usr"@, 1);
    lemma_not_in_dir("/tmp"@, "/dev"@, 1);
    lemma_in_own_dir("/tmp"@, rest);
    assert("/tmp"@ + "/"@ + rest != "~"@) by {
        assert(("/tmp"@ + "/"@ + rest)[0] != "~"@[0]);
    }
    lemma_not_in_dir("/tmp"@ + "/"@ + rest, "/home"@, 1);
    lemma_not_in_dir("/tmp"@ + "/"@ + rest, "/etc"@, 1);
    lemma_not_in_dir("/tmp"@ + "/"@ + rest, "/var"@, 1);
    lemma_not_in_dir("/tmp"@ + "/"@ + rest, "/usr"@, 1);
    lemma_not_in_dir("/tmp"@ + "/"@ + rest, "/dev"@, 1);
    assert("/home"@ != "~"@) by {
        assert(("/home"@)[0] != "~"@[0]);
    }
    lemma_not_in_dir("/home"@, "/tmp"@, 1);
    lemma_not_in_dir("/home"@, "/etc"@, 1);
    lemma_not_in_dir("/home"@, "/var"@, 1);
    lemma_not_in_dir("/home"@, "/usr"@, 1);
    lemma_not_in_dir("/home"@, "/dev"@, 1);
    lemma_in_own_dir("/home"@, rest);
    assert("/home"@ + "/"@ + rest != "~"@) by {
        assert(("/home"@ + "/"@ + rest)[0] != "~"@[0]);
    }
    lemma_not_in_dir("/home"@ + "/"@ + rest, "/tmp"@, 1);
    lemma_not_in_dir("/home"@ + "/"@ + rest, "/etc"@, 1);
    lemma_not_in_dir("/home"@ + "/"@ + rest, "/var"@, 1);
    lemma_not_in_dir("/home"@ + "/"@ + rest, "/usr"@, 1);
    lemma_not_in_dir("/home"@ + "/"@ + rest, "/dev"@, 1);
    assert("/etc"@ != "~"@) by {
        assert(("/etc"@)[0] != "~"@[0]);
    }
    lemma_not_in_dir("/etc"@, "/tmp"@, 1);
    lemma_not_in_dir("/etc"@, "/home"@, 1);
    lemma_not_in_dir("/etc"@, "/var"@, 1);
    lemma_not_in_dir("/etc"@, "/usr"@, 1);
    lemma_not_in_dir("/etc"@, "/dev"@, 1);
    lemma_in_own_dir("/etc"@, rest);
    assert("/etc"@ + "/"@ + rest != "~"@) by {
        assert(("/etc"@ + "/"@ + rest)[0] != "~"@[0]);
    }
    lemma_not_in_dir("/etc"@ + "/"@ + rest, "/tmp"@, 1);
    lemma_not_in_dir("/etc"@ + "/"@ + rest, "/home"@, 1);
    lemma_not_in_dir("/etc"@ + "/"@ + rest, "/var"@, 1);
    lemma_not_in_dir("/etc"@ + "/"@ + rest, "/usr"@, 1);
    lemma_not_in_dir("/etc"@ + "/"@ + rest, "/dev"@, 1);
    assert("/var"@ != "~"@) by {
        assert(("/var"@)[0] != "~"@[0]);
    }
    lemma_not_in_dir("/var"@, "/tmp"@, 1);
    lemma_not_in_dir("/var"@, "/home"@, 1);
    lemma_not_in_dir("/var"@, "/etc"@, 1);
    lemma_not_in_dir("/var"@, "/usr"@, 1);
    lemma_not_in_dir("/var"@, "/dev"@, 1);
    lemma_in_own_dir("/var"@, rest);
    assert("/var"@ + "/"@ + rest != "~"@) by {
        assert(("/var"@ + "/"@ + rest)[0] != "~"@[0]);
    }
    lemma_not_in_dir("/var"@ + "/"@ + rest, "/tmp"@, 1);
    lemma_not_in_dir("/var"@ + "/"@ + rest, "/home"@, 1);
    lemma_not_in_dir("/var"@ + "/"@ + rest, "/etc"@, 1);
    lemma_not_in_dir("/var"@ + "/"@ + rest, "/usr"@, 1);
    lemma_not_in_dir("/var"@ + "/"@ + rest, "/dev"@, 1);
    assert("/usr"@ != "~"@) by {
        assert(("/usr"@)[0] != "~"@[0]);
    }
    lemma_not_in_dir("/usr"@, "/tmp"@, 1);
    lemma_not_in_dir("/usr"@, "/home"@, 1);
    lemma_not_in_dir("/usr"@, "/etc"@, 1);
    lemma_not_in_dir("/usr"@, "/var"@, 1);
    lemma_not_in_dir("/usr"@, "/dev"@, 1);
    lemma_in_own_dir("/usr"@, rest);
    assert("/usr"@ + "/"@ + rest != "~"@) by {
        assert(("/usr"@ + "/"@ + rest)[0] != "~"@[0]);
    }
    lemma_not_in_dir("/usr"@ + "/"@ + rest, "/tmp"@, 1);
    lemma_not_in_dir("/usr"@ + "/"@ + rest, "/home"@, 1);
    lemma_not_in_dir("/usr"@ + "/"@ + rest, "/etc"@, 1);
    lemma_not_in_dir("/usr"@ + "/"@ + rest, "/var"@, 1);
    lemma_not_in_dir("/usr"@ + "/"@ + rest, "/dev"@, 1);
    assert("/dev"@ != "~"@) by {
        assert(("/dev"@)[0] != "~"@[0]);
    }
    lemma_not_in_dir("/dev"@, "/tmp"@, 1);
    lemma_not_in_dir("/dev"@, "/home"@, 1);
    lemma_not_in_dir("/dev"@, "/etc"@, 1);
    lemma_not_in_dir("/dev"@, "/var"@, 1);
    lemma_not_in_dir("/dev"@, "/usr"@, 1);
    lemma_in_own_dir("/dev"@, rest);
    assert("/dev"@ + "/"@ + rest != "~"@) by {
        assert(("/dev"@ + "/"@ + rest)[0] != "~"@[0]);
    }
    lemma_not_in_dir("/dev"@ + "/"@ + rest, "/tmp"@, 1);
    lemma_not_in_dir("/dev"@ + "/"@ + rest, "/home"@, 1);
    lemma_not_in_dir("/dev"@ + "/"@ + rest, "/etc"@, 1);
    lemma_not_in_dir("/dev"@ + "/"@ + rest, "/var"@, 1);
    lemma_not_in_dir("/dev"@ + "/"@ + rest, "/usr"@, 1);
}

} // verus!
