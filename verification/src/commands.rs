//! The command language: what a line typed at the prompt asks for.
//!
//! A line that starts with `/` runs: a built-in command when its name is one
//! of the shell's own, a pipeline of raw commands when it holds `|`, and any
//! other program otherwise. A line without `/` is chat.

use vstd::prelude::*;

use crate::text::{
    after_first, before_first, chars_of, contains_char, is_ascii_lower, lower_text, split_once,
    split_words,
    string_of, text_eq, to_lowercase, trim, trim_str, views, words,
};

verus! {

/// The names the shell completes, hints and highlights, with their slash.
pub open spec fn known_commands() -> Seq<Seq<char>> {
    seq![
        "/tp"@, "/spawn"@, "/whereami"@, "/list"@, "/build"@, "/destroy"@, "/summon"@,
        "/clone"@, "/move"@, "/read"@, "/enchant"@, "/op"@, "/entities"@, "/smite"@,
        "/lag"@, "/seed"@, "/say"@, "/kill"@, "/help"@, "/history"@, "/clear"@, "/me"@,
        "/gamemode"@, "/give"@,
    ]
}

/// No known command starts another one: each is the only known command it
/// is a prefix of.
pub proof fn lemma_commands_prefix_free()
    ensures
        forall|i: int, j: int|
            0 <= i < known_commands().len() && 0 <= j < known_commands().len()
                && #[trigger] known_commands()[i].is_prefix_of(#[trigger] known_commands()[j])
                ==> i == j,
{
    reveal_strlit("/tp");
    reveal_strlit("/spawn");
    reveal_strlit("/whereami");
    reveal_strlit("/list");
    reveal_strlit("/build");
    reveal_strlit("/destroy");
    reveal_strlit("/summon");
    reveal_strlit("/clone");
    reveal_strlit("/move");
    reveal_strlit("/read");
    reveal_strlit("/enchant");
    reveal_strlit("/op");
    reveal_strlit("/entities");
    reveal_strlit("/smite");
    reveal_strlit("/lag");
    reveal_strlit("/seed");
    reveal_strlit("/say");
    reveal_strlit("/kill");
    reveal_strlit("/help");
    reveal_strlit("/history");
    reveal_strlit("/clear");
    reveal_strlit("/me");
    reveal_strlit("/gamemode");
    reveal_strlit("/give");
    let k = known_commands();
    assert(k[0].len() == 3 && k[0][1] == 't' && k[0][2] == 'p');
    assert(k[1].len() == 6 && k[1][1] == 's' && k[1][2] == 'p' && k[1][3] == 'a');
    assert(k[2].len() == 9 && k[2][1] == 'w' && k[2][2] == 'h' && k[2][3] == 'e');
    assert(k[3].len() == 5 && k[3][1] == 'l' && k[3][2] == 'i' && k[3][3] == 's');
    assert(k[4].len() == 6 && k[4][1] == 'b' && k[4][2] == 'u' && k[4][3] == 'i');
    assert(k[5].len() == 8 && k[5][1] == 'd' && k[5][2] == 'e' && k[5][3] == 's');
    assert(k[6].len() == 7 && k[6][1] == 's' && k[6][2] == 'u' && k[6][3] == 'm');
    assert(k[7].len() == 6 && k[7][1] == 'c' && k[7][2] == 'l' && k[7][3] == 'o');
    assert(k[8].len() == 5 && k[8][1] == 'm' && k[8][2] == 'o' && k[8][3] == 'v');
    assert(k[9].len() == 5 && k[9][1] == 'r' && k[9][2] == 'e' && k[9][3] == 'a');
    assert(k[10].len() == 8 && k[10][1] == 'e' && k[10][2] == 'n' && k[10][3] == 'c');
    assert(k[11].len() == 3 && k[11][1] == 'o' && k[11][2] == 'p');
    assert(k[12].len() == 9 && k[12][1] == 'e' && k[12][2] == 'n' && k[12][3] == 't');
    assert(k[13].len() == 6 && k[13][1] == 's' && k[13][2] == 'm' && k[13][3] == 'i');
    assert(k[14].len() == 4 && k[14][1] == 'l' && k[14][2] == 'a' && k[14][3] == 'g');
    assert(k[15].len() == 5 && k[15][1] == 's' && k[15][2] == 'e' && k[15][3] == 'e');
    assert(k[16].len() == 4 && k[16][1] == 's' && k[16][2] == 'a' && k[16][3] == 'y');
    assert(k[17].len() == 5 && k[17][1] == 'k' && k[17][2] == 'i' && k[17][3] == 'l');
    assert(k[18].len() == 5 && k[18][1] == 'h' && k[18][2] == 'e' && k[18][3] == 'l');
    assert(k[19].len() == 8 && k[19][1] == 'h' && k[19][2] == 'i' && k[19][3] == 's');
    assert(k[20].len() == 6 && k[20][1] == 'c' && k[20][2] == 'l' && k[20][3] == 'e');
    assert(k[21].len() == 3 && k[21][1] == 'm' && k[21][2] == 'e');
    assert(k[22].len() == 9 && k[22][1] == 'g' && k[22][2] == 'a' && k[22][3] == 'm');
    assert(k[23].len() == 5 && k[23][1] == 'g' && k[23][2] == 'i' && k[23][3] == 'v');
    assert forall|i: int, j: int|
        0 <= i < k.len() && 0 <= j < k.len() && #[trigger] k[i].is_prefix_of(#[trigger] k[j])
            implies i == j by {
        assert(k[i][1] == k[j][1]);
        assert(k[i][2] == k[j][2]);
        if k[i].len() > 3 {
            assert(k[i][3] == k[j][3]);
        }
    }
}

/// Every known command is ASCII without an upper-case letter.
pub proof fn lemma_commands_ascii_lower()
    ensures
        forall|j: int| 0 <= j < known_commands().len() ==> is_ascii_lower(#[trigger] known_commands()[j]),
{
    reveal_strlit("/tp");
    reveal_strlit("/spawn");
    reveal_strlit("/whereami");
    reveal_strlit("/list");
    reveal_strlit("/build");
    reveal_strlit("/destroy");
    reveal_strlit("/summon");
    reveal_strlit("/clone");
    reveal_strlit("/move");
    reveal_strlit("/read");
    reveal_strlit("/enchant");
    reveal_strlit("/op");
    reveal_strlit("/entities");
    reveal_strlit("/smite");
    reveal_strlit("/lag");
    reveal_strlit("/seed");
    reveal_strlit("/say");
    reveal_strlit("/kill");
    reveal_strlit("/help");
    reveal_strlit("/history");
    reveal_strlit("/clear");
    reveal_strlit("/me");
    reveal_strlit("/gamemode");
    reveal_strlit("/give");
    let k = known_commands();
    assert forall|j: int| 0 <= j < k.len() implies is_ascii_lower(#[trigger] k[j]) by {
        assert forall|i: int| 0 <= i < k[j].len() implies (#[trigger] k[j][i] as u32) < 0x80 && !(
        'A' <= k[j][i] <= 'Z') by {}
    }
}

/// The views of a sequence of string slices.
pub open spec fn str_views(v: Seq<&str>) -> Seq<Seq<char>> {
    v.map_values(|x: &str| x@)
}

/// The names the shell completes, hints and highlights, in this order.
pub fn all_commands() -> (r: Vec<&'static str>)
    ensures
        str_views(r@) == known_commands(),
{
    let r = vec![
        "/tp", "/spawn", "/whereami", "/list", "/build", "/destroy", "/summon", "/clone",
        "/move", "/read", "/enchant", "/op", "/entities", "/smite", "/lag", "/seed", "/say",
        "/kill", "/help", "/history", "/clear", "/me", "/gamemode", "/give",
    ];
    assert(str_views(r@) =~= known_commands());
    r
}

/// The aliases of built-in commands, with their slash.
pub open spec fn command_aliases() -> Seq<Seq<char>> {
    seq![
        "/cd"@, "/pwd"@, "/ls"@, "/mkdir"@, "/rm"@, "/touch"@, "/cp"@, "/mv"@, "/cat"@, "/ps"@,
        "/top"@, "/env"@,
    ]
}

/// The aliases of built-in commands, in this order.
pub fn all_aliases() -> (r: Vec<&'static str>)
    ensures
        str_views(r@) == command_aliases(),
{
    let r = vec![
        "/cd", "/pwd", "/ls", "/mkdir", "/rm", "/touch", "/cp", "/mv", "/cat", "/ps", "/top",
        "/env",
    ];
    assert(str_views(r@) =~= command_aliases());
    r
}

/// The commands the shell carries out itself.
#[derive(Clone, Copy, Debug, PartialEq, Eq, Structural)]
pub enum Builtin {
    Tp,
    Spawn,
    Whereami,
    List,
    Build,
    Destroy,
    Summon,
    Clone,
    Move,
    Read,
    Enchant,
    Op,
    Entities,
    Smite,
    Lag,
    Seed,
    Say,
    Kill,
    Help,
    Clear,
    Me,
    Gamemode,
    Give,
}

/// The built-in command called `name` (lower case, without the slash), by
/// its own name or by the alias it shares with the usual shell command.
pub open spec fn builtin_of(name: Seq<char>) -> Option<Builtin> {
    if name == "tp"@ || name == "cd"@ {
        Some(Builtin::Tp)
    } else if name == "spawn"@ {
        Some(Builtin::Spawn)
    } else if name == "whereami"@ || name == "pwd"@ {
        Some(Builtin::Whereami)
    } else if name == "list"@ || name == "ls"@ {
        Some(Builtin::List)
    } else if name == "build"@ || name == "mkdir"@ {
        Some(Builtin::Build)
    } else if name == "destroy"@ || name == "rm"@ {
        Some(Builtin::Destroy)
    } else if name == "summon"@ || name == "touch"@ {
        Some(Builtin::Summon)
    } else if name == "clone"@ || name == "cp"@ {
        Some(Builtin::Clone)
    } else if name == "move"@ || name == "mv"@ {
        Some(Builtin::Move)
    } else if name == "read"@ || name == "cat"@ {
        Some(Builtin::Read)
    } else if name == "enchant"@ {
        Some(Builtin::Enchant)
    } else if name == "op"@ {
        Some(Builtin::Op)
    } else if name == "entities"@ || name == "ps"@ {
        Some(Builtin::Entities)
    } else if name == "smite"@ {
        Some(Builtin::Smite)
    } else if name == "lag"@ || name == "top"@ {
        Some(Builtin::Lag)
    } else if name == "seed"@ || name == "env"@ {
        Some(Builtin::Seed)
    } else if name == "say"@ {
        Some(Builtin::Say)
    } else if name == "kill"@ {
        Some(Builtin::Kill)
    } else if name == "help"@ {
        Some(Builtin::Help)
    } else if name == "clear"@ {
        Some(Builtin::Clear)
    } else if name == "me"@ {
        Some(Builtin::Me)
    } else if name == "gamemode"@ {
        Some(Builtin::Gamemode)
    } else if name == "give"@ {
        Some(Builtin::Give)
    } else {
        None
    }
}

/// The built-in command called `name`, if there is one.
pub fn builtin_named(name: &str) -> (r: Option<Builtin>)
    ensures
        r == builtin_of(name@),
{
    if text_eq(name, "tp") || text_eq(name, "cd") {
        Some(Builtin::Tp)
    } else if text_eq(name, "spawn") {
        Some(Builtin::Spawn)
    } else if text_eq(name, "whereami") || text_eq(name, "pwd") {
        Some(Builtin::Whereami)
    } else if text_eq(name, "list") || text_eq(name, "ls") {
        Some(Builtin::List)
    } else if text_eq(name, "build") || text_eq(name, "mkdir") {
        Some(Builtin::Build)
    } else if text_eq(name, "destroy") || text_eq(name, "rm") {
        Some(Builtin::Destroy)
    } else if text_eq(name, "summon") || text_eq(name, "touch") {
        Some(Builtin::Summon)
    } else if text_eq(name, "clone") || text_eq(name, "cp") {
        Some(Builtin::Clone)
    } else if text_eq(name, "move") || text_eq(name, "mv") {
        Some(Builtin::Move)
    } else if text_eq(name, "read") || text_eq(name, "cat") {
        Some(Builtin::Read)
    } else if text_eq(name, "enchant") {
        Some(Builtin::Enchant)
    } else if text_eq(name, "op") {
        Some(Builtin::Op)
    } else if text_eq(name, "entities") || text_eq(name, "ps") {
        Some(Builtin::Entities)
    } else if text_eq(name, "smite") {
        Some(Builtin::Smite)
    } else if text_eq(name, "lag") || text_eq(name, "top") {
        Some(Builtin::Lag)
    } else if text_eq(name, "seed") || text_eq(name, "env") {
        Some(Builtin::Seed)
    } else if text_eq(name, "say") {
        Some(Builtin::Say)
    } else if text_eq(name, "kill") {
        Some(Builtin::Kill)
    } else if text_eq(name, "help") {
        Some(Builtin::Help)
    } else if text_eq(name, "clear") {
        Some(Builtin::Clear)
    } else if text_eq(name, "me") {
        Some(Builtin::Me)
    } else if text_eq(name, "gamemode") {
        Some(Builtin::Gamemode)
    } else if text_eq(name, "give") {
        Some(Builtin::Give)
    } else {
        None
    }
}

/// What a line asks for.
pub enum Request {
    /// Nothing but whitespace: nothing to do.
    Blank,
    /// A line without a leading slash: said in chat (the trimmed text).
    Chat { text: String },
    /// A slash line holding `|`: a pipeline of raw commands (the trimmed line).
    Pipeline { line: String },
    /// One of the shell's own commands, with everything after the first space.
    Builtin { command: Builtin, args: String },
    /// Any other slash command: the program (its name in lower case) and its
    /// whitespace-separated arguments.
    Raw { program: String, argv: Vec<String> },
}

/// The mathematical form of a `Request`.
pub enum RequestView {
    Blank,
    Chat(Seq<char>),
    Pipeline(Seq<char>),
    Builtin(Builtin, Seq<char>),
    Raw(Seq<char>, Seq<Seq<char>>),
}

impl View for Request {
    type V = RequestView;

    open spec fn view(&self) -> RequestView {
        match self {
            Request::Blank => RequestView::Blank,
            Request::Chat { text } => RequestView::Chat(text@),
            Request::Pipeline { line } => RequestView::Pipeline(line@),
            Request::Builtin { command, args } => RequestView::Builtin(*command, args@),
            Request::Raw { program, argv } => RequestView::Raw(program@, views(argv@)),
        }
    }
}

/// The command name of a slash line `t` (`t` without its slash, up to the
/// first space), in lower case.
pub open spec fn command_name(t: Seq<char>) -> Seq<char> {
    lower_text(before_first(t.drop_first(), ' '))
}

/// The arguments of a slash line `t`: everything after the first space, or
/// nothing.
pub open spec fn command_args(t: Seq<char>) -> Seq<char> {
    match after_first(t.drop_first(), ' ') {
        Some(a) => a,
        None => Seq::<char>::empty(),
    }
}

/// What `input` asks for.
pub open spec fn request_of(input: Seq<char>) -> RequestView {
    let t = trim(input);
    if t.len() == 0 {
        RequestView::Blank
    } else if t[0] != '/' {
        RequestView::Chat(t)
    } else if t.contains('|') {
        RequestView::Pipeline(t)
    } else {
        let name = command_name(t);
        let args = command_args(t);
        match builtin_of(name) {
            Some(b) => RequestView::Builtin(b, args),
            None => RequestView::Raw(name, words(args)),
        }
    }
}

/// Reads what a line typed at the prompt asks for.
pub fn parse_request(input: &str) -> (r: Request)
    ensures
        r@ == request_of(input@),
{
    let t = trim_str(input);
    if t.as_str().is_empty() {
        return Request::Blank;
    }
    let tc = chars_of(t.as_str());
    if tc[0] != '/' {
        return Request::Chat { text: t };
    }
    if contains_char(t.as_str(), '|') {
        return Request::Pipeline { line: t };
    }
    let rest = string_of(&tc, 1, tc.len());
    assert(rest@ =~= t@.drop_first());
    let (name_raw, args_opt) = split_once(rest.as_str(), ' ');
    let name = to_lowercase(name_raw.as_str());
    let args = match args_opt {
        Some(a) => a,
        None => String::new(),
    };
    match builtin_named(name.as_str()) {
        Some(b) => Request::Builtin { command: b, args },
        None => {
            let words = split_words(args.as_str());
            Request::Raw { program: name, argv: words }
        },
    }
}

/// Whether `line` asks to show the command history: exactly `/history`.
pub fn is_history_request(line: &str) -> (r: bool)
    ensures
        r == (line@ == "/history"@),
{
    text_eq(line, "/history")
}

impl Request {
    /// Whether carrying out this request ends the session (`/kill`).
    pub fn ends_session(&self) -> (r: bool)
        ensures
            r == (self@ matches RequestView::Builtin(b, _) && b == Builtin::Kill),
    {
        match self {
            Request::Builtin { command, .. } => *command == Builtin::Kill,
            _ => false,
        }
    }
}

/// Each alias names the same built-in as the command it stands for: `cd` is
/// `tp`, `pwd` is `whereami`, `ls` is `list`, `mkdir` is `build`, `rm` is
/// `destroy`, `touch` is `summon`, `cp` is `clone`, `mv` is `move`, `cat` is
/// `read`, `ps` is `entities`, `top` is `lag` and `env` is `seed`.
pub proof fn law_aliases_name_their_builtins()
    ensures
        builtin_of("cd"@) == builtin_of("tp"@) && builtin_of("tp"@) == Some(Builtin::Tp),
        builtin_of("pwd"@) == builtin_of("whereami"@) && builtin_of("whereami"@) == Some(
            Builtin::Whereami,
        ),
        builtin_of("ls"@) == builtin_of("list"@) && builtin_of("list"@) == Some(Builtin::List),
        builtin_of("mkdir"@) == builtin_of("build"@) && builtin_of("build"@) == Some(
            Builtin::Build,
        ),
        builtin_of("rm"@) == builtin_of("destroy"@) && builtin_of("destroy"@) == Some(
            Builtin::Destroy,
        ),
        builtin_of("touch"@) == builtin_of("summon"@) && builtin_of("summon"@) == Some(
            Builtin::Summon,
        ),
        builtin_of("cp"@) == builtin_of("clone"@) && builtin_of("clone"@) == Some(Builtin::Clone),
        builtin_of("mv"@) == builtin_of("move"@) && builtin_of("move"@) == Some(Builtin::Move),
        builtin_of("cat"@) == builtin_of("read"@) && builtin_of("read"@) == Some(Builtin::Read),
        builtin_of("ps"@) == builtin_of("entities"@) && builtin_of("entities"@) == Some(
            Builtin::Entities,
        ),
        builtin_of("top"@) == builtin_of("lag"@) && builtin_of("lag"@) == Some(Builtin::Lag),
        builtin_of("env"@) == builtin_of("seed"@) && builtin_of("seed"@) == Some(Builtin::Seed),
{
    reveal_strlit("tp");
    reveal_strlit("cd");
    reveal_strlit("spawn");
    reveal_strlit("whereami");
    reveal_strlit("pwd");
    reveal_strlit("list");
    reveal_strlit("ls");
    reveal_strlit("build");
    reveal_strlit("mkdir");
    reveal_strlit("destroy");
    reveal_strlit("rm");
    reveal_strlit("summon");
    reveal_strlit("touch");
    reveal_strlit("clone");
    reveal_strlit("cp");
    reveal_strlit("move");
    reveal_strlit("mv");
    reveal_strlit("read");
    reveal_strlit("cat");
    reveal_strlit("enchant");
    reveal_strlit("op");
    reveal_strlit("entities");
    reveal_strlit("ps");
    reveal_strlit("smite");
    reveal_strlit("lag");
    reveal_strlit("top");
    reveal_strlit("seed");
    reveal_strlit("env");
    assert("tp"@.len() == 2 && "tp"@[0] == 't' && "tp"@[1] == 'p');
    assert("cd"@.len() == 2 && "cd"@[0] == 'c' && "cd"@[1] == 'd');
    assert("spawn"@.len() == 5 && "spawn"@[0] == 's' && "spawn"@[1] == 'p');
    assert("whereami"@.len() == 8 && "whereami"@[0] == 'w' && "whereami"@[1] == 'h');
    assert("pwd"@.len() == 3 && "pwd"@[0] == 'p' && "pwd"@[1] == 'w');
    assert("list"@.len() == 4 && "list"@[0] == 'l' && "list"@[1] == 'i');
    assert("ls"@.len() == 2 && "ls"@[0] == 'l' && "ls"@[1] == 's');
    assert("build"@.len() == 5 && "build"@[0] == 'b' && "build"@[1] == 'u');
    assert("mkdir"@.len() == 5 && "mkdir"@[0] == 'm' && "mkdir"@[1] == 'k');
    assert("destroy"@.len() == 7 && "destroy"@[0] == 'd' && "destroy"@[1] == 'e');
    assert("rm"@.len() == 2 && "rm"@[0] == 'r' && "rm"@[1] == 'm');
    assert("summon"@.len() == 6 && "summon"@[0] == 's' && "summon"@[1] == 'u');
    assert("touch"@.len() == 5 && "touch"@[0] == 't' && "touch"@[1] == 'o');
    assert("clone"@.len() == 5 && "clone"@[0] == 'c' && "clone"@[1] == 'l');
    assert("cp"@.len() == 2 && "cp"@[0] == 'c' && "cp"@[1] == 'p');
    assert("move"@.len() == 4 && "move"@[0] == 'm' && "move"@[1] == 'o');
    assert("mv"@.len() == 2 && "mv"@[0] == 'm' && "mv"@[1] == 'v');
    assert("read"@.len() == 4 && "read"@[0] == 'r' && "read"@[1] == 'e');
    assert("cat"@.len() == 3 && "cat"@[0] == 'c' && "cat"@[1] == 'a');
    assert("enchant"@.len() == 7 && "enchant"@[0] == 'e' && "enchant"@[1] == 'n');
    assert("op"@.len() == 2 && "op"@[0] == 'o' && "op"@[1] == 'p');
    assert("entities"@.len() == 8 && "entities"@[0] == 'e' && "entities"@[1] == 'n');
    assert("ps"@.len() == 2 && "ps"@[0] == 'p' && "ps"@[1] == 's');
    assert("smite"@.len() == 5 && "smite"@[0] == 's' && "smite"@[1] == 'm');
    assert("lag"@.len() == 3 && "lag"@[0] == 'l' && "lag"@[1] == 'a');
    assert("top"@.len() == 3 && "top"@[0] == 't' && "top"@[1] == 'o');
    assert("seed"@.len() == 4 && "seed"@[0] == 's' && "seed"@[1] == 'e');
    assert("env"@.len() == 3 && "env"@[0] == 'e' && "env"@[1] == 'n');
}

/// Every known command names one of the shell's own commands, except
/// `/history`, which the session itself answers: without its slash each
/// other known command is the name of a built-in, no two of them the same
/// built-in, and each the built-in of its own name.
pub proof fn law_known_commands_name_builtins()
    ensures
        forall|j: int|
            0 <= j < known_commands().len() && known_commands()[j] != "/history"@ ==> builtin_of(
                #[trigger] known_commands()[j].drop_first(),
            ) is Some,
        forall|i: int, j: int|
            0 <= i < known_commands().len() && 0 <= j < known_commands().len() && i != j
                && known_commands()[i] != "/history"@ ==> builtin_of(
                #[trigger] known_commands()[i].drop_first(),
            ) != builtin_of(#[trigger] known_commands()[j].drop_first()),
        builtin_of("history"@) is None,
        builtin_of("tp"@) == Some(Builtin::Tp),
        builtin_of("spawn"@) == Some(Builtin::Spawn),
        builtin_of("whereami"@) == Some(Builtin::Whereami),
        builtin_of("list"@) == Some(Builtin::List),
        builtin_of("build"@) == Some(Builtin::Build),
        builtin_of("destroy"@) == Some(Builtin::Destroy),
        builtin_of("summon"@) == Some(Builtin::Summon),
        builtin_of("clone"@) == Some(Builtin::Clone),
        builtin_of("move"@) == Some(Builtin::Move),
        builtin_of("read"@) == Some(Builtin::Read),
        builtin_of("enchant"@) == Some(Builtin::Enchant),
        builtin_of("op"@) == Some(Builtin::Op),
        builtin_of("entities"@) == Some(Builtin::Entities),
        builtin_of("smite"@) == Some(Builtin::Smite),
        builtin_of("lag"@) == Some(Builtin::Lag),
        builtin_of("seed"@) == Some(Builtin::Seed),
        builtin_of("say"@) == Some(Builtin::Say),
        builtin_of("kill"@) == Some(Builtin::Kill),
        builtin_of("help"@) == Some(Builtin::Help),
        builtin_of("clear"@) == Some(Builtin::Clear),
        builtin_of("me"@) == Some(Builtin::Me),
        builtin_of("gamemode"@) == Some(Builtin::Gamemode),
        builtin_of("give"@) == Some(Builtin::Give),
{
    reveal_strlit("tp");
    reveal_strlit("spawn");
    reveal_strlit("whereami");
    reveal_strlit("list");
    reveal_strlit("build");
    reveal_strlit("destroy");
    reveal_strlit("summon");
    reveal_strlit("clone");
    reveal_strlit("move");
    reveal_strlit("read");
    reveal_strlit("enchant");
    reveal_strlit("op");
    reveal_strlit("entities");
    reveal_strlit("smite");
    reveal_strlit("lag");
    reveal_strlit("seed");
    reveal_strlit("say");
    reveal_strlit("kill");
    reveal_strlit("help");
    reveal_strlit("history");
    reveal_strlit("clear");
    reveal_strlit("me");
    reveal_strlit("gamemode");
    reveal_strlit("give");
    reveal_strlit("cd");
    reveal_strlit("pwd");
    reveal_strlit("ls");
    reveal_strlit("mkdir");
    reveal_strlit("rm");
    reveal_strlit("touch");
    reveal_strlit("cp");
    reveal_strlit("mv");
    reveal_strlit("cat");
    reveal_strlit("ps");
    reveal_strlit("top");
    reveal_strlit("env");
    reveal_strlit("/tp");
    reveal_strlit("/spawn");
    reveal_strlit("/whereami");
    reveal_strlit("/list");
    reveal_strlit("/build");
    reveal_strlit("/destroy");
    reveal_strlit("/summon");
    reveal_strlit("/clone");
    reveal_strlit("/move");
    reveal_strlit("/read");
    reveal_strlit("/enchant");
    reveal_strlit("/op");
    reveal_strlit("/entities");
    reveal_strlit("/smite");
    reveal_strlit("/lag");
    reveal_strlit("/seed");
    reveal_strlit("/say");
    reveal_strlit("/kill");
    reveal_strlit("/help");
    reveal_strlit("/history");
    reveal_strlit("/clear");
    reveal_strlit("/me");
    reveal_strlit("/gamemode");
    reveal_strlit("/give");
    assert("tp"@.len() == 2 && "tp"@[0] == 't' && "tp"@[1] == 'p');
    assert("spawn"@.len() == 5 && "spawn"@[0] == 's' && "spawn"@[1] == 'p' && "spawn"@[2] == 'a');
    assert("whereami"@.len() == 8 && "whereami"@[0] == 'w' && "whereami"@[1] == 'h' && "whereami"@[2] == 'e');
    assert("list"@.len() == 4 && "list"@[0] == 'l' && "list"@[1] == 'i' && "list"@[2] == 's');
    assert("build"@.len() == 5 && "build"@[0] == 'b' && "build"@[1] == 'u' && "build"@[2] == 'i');
    assert("destroy"@.len() == 7 && "destroy"@[0] == 'd' && "destroy"@[1] == 'e' && "destroy"@[2] == 's');
    assert("summon"@.len() == 6 && "summon"@[0] == 's' && "summon"@[1] == 'u' && "summon"@[2] == 'm');
    assert("clone"@.len() == 5 && "clone"@[0] == 'c' && "clone"@[1] == 'l' && "clone"@[2] == 'o');
    assert("move"@.len() == 4 && "move"@[0] == 'm' && "move"@[1] == 'o' && "move"@[2] == 'v');
    assert("read"@.len() == 4 && "read"@[0] == 'r' && "read"@[1] == 'e' && "read"@[2] == 'a');
    assert("enchant"@.len() == 7 && "enchant"@[0] == 'e' && "enchant"@[1] == 'n' && "enchant"@[2] == 'c');
    assert("op"@.len() == 2 && "op"@[0] == 'o' && "op"@[1] == 'p');
    assert("entities"@.len() == 8 && "entities"@[0] == 'e' && "entities"@[1] == 'n' && "entities"@[2] == 't');
    assert("smite"@.len() == 5 && "smite"@[0] == 's' && "smite"@[1] == 'm' && "smite"@[2] == 'i');
    assert("lag"@.len() == 3 && "lag"@[0] == 'l' && "lag"@[1] == 'a' && "lag"@[2] == 'g');
    assert("seed"@.len() == 4 && "seed"@[0] == 's' && "seed"@[1] == 'e' && "seed"@[2] == 'e');
    assert("say"@.len() == 3 && "say"@[0] == 's' && "say"@[1] == 'a' && "say"@[2] == 'y');
    assert("kill"@.len() == 4 && "kill"@[0] == 'k' && "kill"@[1] == 'i' && "kill"@[2] == 'l');
    assert("help"@.len() == 4 && "help"@[0] == 'h' && "help"@[1] == 'e' && "help"@[2] == 'l');
    assert("history"@.len() == 7 && "history"@[0] == 'h' && "history"@[1] == 'i' && "history"@[2] == 's');
    assert("clear"@.len() == 5 && "clear"@[0] == 'c' && "clear"@[1] == 'l' && "clear"@[2] == 'e');
    assert("me"@.len() == 2 && "me"@[0] == 'm' && "me"@[1] == 'e');
    assert("gamemode"@.len() == 8 && "gamemode"@[0] == 'g' && "gamemode"@[1] == 'a' && "gamemode"@[2] == 'm');
    assert("give"@.len() == 4 && "give"@[0] == 'g' && "give"@[1] == 'i' && "give"@[2] == 'v');
    assert("cd"@.len() == 2 && "cd"@[0] == 'c' && "cd"@[1] == 'd');
    assert("pwd"@.len() == 3 && "pwd"@[0] == 'p' && "pwd"@[1] == 'w' && "pwd"@[2] == 'd');
    assert("ls"@.len() == 2 && "ls"@[0] == 'l' && "ls"@[1] == 's');
    assert("mkdir"@.len() == 5 && "mkdir"@[0] == 'm' && "mkdir"@[1] == 'k' && "mkdir"@[2] == 'd');
    assert("rm"@.len() == 2 && "rm"@[0] == 'r' && "rm"@[1] == 'm');
    assert("touch"@.len() == 5 && "touch"@[0] == 't' && "touch"@[1] == 'o' && "touch"@[2] == 'u');
    assert("cp"@.len() == 2 && "cp"@[0] == 'c' && "cp"@[1] == 'p');
    assert("mv"@.len() == 2 && "mv"@[0] == 'm' && "mv"@[1] == 'v');
    assert("cat"@.len() == 3 && "cat"@[0] == 'c' && "cat"@[1] == 'a' && "cat"@[2] == 't');
    assert("ps"@.len() == 2 && "ps"@[0] == 'p' && "ps"@[1] == 's');
    assert("top"@.len() == 3 && "top"@[0] == 't' && "top"@[1] == 'o' && "top"@[2] == 'p');
    assert("env"@.len() == 3 && "env"@[0] == 'e' && "env"@[1] == 'n' && "env"@[2] == 'v');
    let k = known_commands();
    assert(k[0].drop_first() =~= "tp"@);
    assert(k[1].drop_first() =~= "spawn"@);
    assert(k[2].drop_first() =~= "whereami"@);
    assert(k[3].drop_first() =~= "list"@);
    assert(k[4].drop_first() =~= "build"@);
    assert(k[5].drop_first() =~= "destroy"@);
    assert(k[6].drop_first() =~= "summon"@);
    assert(k[7].drop_first() =~= "clone"@);
    assert(k[8].drop_first() =~= "move"@);
    assert(k[9].drop_first() =~= "read"@);
    assert(k[10].drop_first() =~= "enchant"@);
    assert(k[11].drop_first() =~= "op"@);
    assert(k[12].drop_first() =~= "entities"@);
    assert(k[13].drop_first() =~= "smite"@);
    assert(k[14].drop_first() =~= "lag"@);
    assert(k[15].drop_first() =~= "seed"@);
    assert(k[16].drop_first() =~= "say"@);
    assert(k[17].drop_first() =~= "kill"@);
    assert(k[18].drop_first() =~= "help"@);
    assert(k[19].drop_first() =~= "history"@);
    assert(k[20].drop_first() =~= "clear"@);
    assert(k[21].drop_first() =~= "me"@);
    assert(k[22].drop_first() =~= "gamemode"@);
    assert(k[23].drop_first() =~= "give"@);
    assert(builtin_of(k[0].drop_first()) == Some(Builtin::Tp));
    assert(builtin_of(k[1].drop_first()) == Some(Builtin::Spawn));
    assert(builtin_of(k[2].drop_first()) == Some(Builtin::Whereami));
    assert(builtin_of(k[3].drop_first()) == Some(Builtin::List));
    assert(builtin_of(k[4].drop_first()) == Some(Builtin::Build));
    assert(builtin_of(k[5].drop_first()) == Some(Builtin::Destroy));
    assert(builtin_of(k[6].drop_first()) == Some(Builtin::Summon));
    assert(builtin_of(k[7].drop_first()) == Some(Builtin::Clone));
    assert(builtin_of(k[8].drop_first()) == Some(Builtin::Move));
    assert(builtin_of(k[9].drop_first()) == Some(Builtin::Read));
    assert(builtin_of(k[10].drop_first()) == Some(Builtin::Enchant));
    assert(builtin_of(k[11].drop_first()) == Some(Builtin::Op));
    assert(builtin_of(k[12].drop_first()) == Some(Builtin::Entities));
    assert(builtin_of(k[13].drop_first()) == Some(Builtin::Smite));
    assert(builtin_of(k[14].drop_first()) == Some(Builtin::Lag));
    assert(builtin_of(k[15].drop_first()) == Some(Builtin::Seed));
    assert(builtin_of(k[16].drop_first()) == Some(Builtin::Say));
    assert(builtin_of(k[17].drop_first()) == Some(Builtin::Kill));
    assert(builtin_of(k[18].drop_first()) == Some(Builtin::Help));
    assert(builtin_of(k[19].drop_first()) is None);
    assert(builtin_of(k[20].drop_first()) == Some(Builtin::Clear));
    assert(builtin_of(k[21].drop_first()) == Some(Builtin::Me));
    assert(builtin_of(k[22].drop_first()) == Some(Builtin::Gamemode));
    assert(builtin_of(k[23].drop_first()) == Some(Builtin::Give));
}

/// Text without a slash is chat: a line is said in chat exactly when, trimmed,
/// it is not empty and does not start with `/`; what is said is the trimmed line.
pub proof fn law_text_without_slash_is_chat(input: Seq<char>)
    ensures
        (request_of(input) is Chat) <==> (trim(input).len() > 0 && trim(input)[0] != '/'),
        request_of(input) is Chat ==> request_of(input) == RequestView::Chat(trim(input)),
{
}

/// Everything with a slash runs: a line that, trimmed, starts with `/` is
/// never chat and never blank.
pub proof fn law_slash_lines_run(input: Seq<char>)
    requires
        trim(input).len() > 0,
        trim(input)[0] == '/',
    ensures
        request_of(input) is Pipeline || request_of(input) is Builtin || request_of(input) is Raw,
{
}

/// Any slash command the shell does not know runs as a raw command: the
/// program is the lower-cased name and the arguments are the words after it.
pub proof fn law_unknown_commands_run_raw(input: Seq<char>)
    requires
        trim(input).len() > 0,
        trim(input)[0] == '/',
        !trim(input).contains('|'),
        builtin_of(command_name(trim(input))) is None,
    ensures
        request_of(input) == RequestView::Raw(
            command_name(trim(input)),
            words(command_args(trim(input))),
        ),
{
}

} // verus!
