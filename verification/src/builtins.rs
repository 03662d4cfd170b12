//! What each built-in command does: a plan of one outside effect (change
//! directory, copy a file, run a program, ...) and the messages that go with it.
//!
//! The plan is pure: whoever carries it out performs the effect and prints the
//! lines, rendering them with `render`, `server_msg` and `error_msg`.

use vstd::prelude::*;

use crate::commands::Builtin;
use crate::style::{
    cyan_bold, cyan_bold_code, dimmed, dimmed_code, green, green_bold, green_bold_code, green_code,
    italic_white, italic_white_code, red, red_bold, red_bold_code, red_code, styled, white,
    white_code, yellow_bold, yellow_bold_code,
};
use crate::text::{
    after_first, base_name, base_name_of, before_first, concat2, concat3, concat4, lower_text,
    law_split_once_reassembles, split_once, text_eq, to_lowercase, views,
};

verus! {

/// How a message line is coloured.
#[derive(Clone, Copy, Debug, PartialEq, Eq, Structural)]
pub enum Paint {
    Plain,
    Green,
    GreenBold,
    Red,
    RedBold,
    White,
    YellowBold,
    CyanBold,
    Dimmed,
    ItalicWhite,
}

/// The SGR parameters of a paint (empty for plain text).
pub open spec fn paint_code(p: Paint) -> Seq<char> {
    match p {
        Paint::Plain => Seq::<char>::empty(),
        Paint::Green => green_code(),
        Paint::GreenBold => green_bold_code(),
        Paint::Red => red_code(),
        Paint::RedBold => red_bold_code(),
        Paint::White => white_code(),
        Paint::YellowBold => yellow_bold_code(),
        Paint::CyanBold => cyan_bold_code(),
        Paint::Dimmed => dimmed_code(),
        Paint::ItalicWhite => italic_white_code(),
    }
}

/// `r` is how a line with text `t` and paint `p` shows on the terminal.
pub open spec fn painted(t: Seq<char>, p: Paint, r: Seq<char>) -> bool {
    if p == Paint::Plain {
        r == t
    } else {
        styled(t, paint_code(p), r)
    }
}

/// One line of output: its text and its colour.
pub struct Line {
    pub text: String,
    pub paint: Paint,
}

impl View for Line {
    type V = (Seq<char>, Paint);

    open spec fn view(&self) -> (Seq<char>, Paint) {
        (self.text@, self.paint)
    }
}

/// The views of a sequence of lines.
pub open spec fn line_views(v: Seq<Line>) -> Seq<(Seq<char>, Paint)> {
    v.map_values(|l: Line| l@)
}

/// Renders a line for the terminal.
pub fn render(line: &Line) -> (r: String)
    ensures
        painted(line.text@, line.paint, r@),
{
    let t = line.text.as_str();
    match line.paint {
        Paint::Plain => t.to_owned(),
        Paint::Green => green(t),
        Paint::GreenBold => green_bold(t),
        Paint::Red => red(t),
        Paint::RedBold => red_bold(t),
        Paint::White => white(t),
        Paint::YellowBold => yellow_bold(t),
        Paint::CyanBold => cyan_bold(t),
        Paint::Dimmed => dimmed(t),
        Paint::ItalicWhite => italic_white(t),
    }
}

/// The text of a server message: `[Server] ` and the message.
pub open spec fn server_text(msg: Seq<char>) -> Seq<char> {
    "[Server] "@ + msg
}

/// The text of an error message: `[Server] ❌ ` and the message.
pub open spec fn error_text(msg: Seq<char>) -> Seq<char> {
    "[Server] ❌ "@ + msg
}

/// A server message line: green, after `[Server] `.
pub fn server_line(msg: &str) -> (r: Line)
    ensures
        r@ == (server_text(msg@), Paint::Green),
{
    Line { text: concat2("[Server] ", msg), paint: Paint::Green }
}

/// A server message, rendered: `[Server] ` and the message, in green.
pub fn server_msg(msg: &str) -> (r: String)
    ensures
        styled(server_text(msg@), green_code(), r@),
{
    green(concat2("[Server] ", msg).as_str())
}

/// An error message, rendered: `[Server] ❌ ` and the message, in red.
pub fn error_msg(msg: &str) -> (r: String)
    ensures
        styled(error_text(msg@), red_code(), r@),
{
    red(concat2("[Server] ❌ ", msg).as_str())
}

/// A chat message, rendered: `<user> text`, in white.
pub fn chat_line(user: &str, text: &str) -> (r: String)
    ensures
        styled("<"@ + user@ + "> "@ + text@, white_code(), r@),
{
    white(concat4("<", user, "> ", text).as_str())
}

/// What the shell prints for a raw command that could not be started, rendered (red).
pub fn unknown_command_line() -> (r: String)
    ensures
        styled("Unknown command. Type \"/help\" for a list of commands."@, red_code(), r@),
{
    red("Unknown command. Type \"/help\" for a list of commands.")
}

/// What the shell prints when the terminal closes the input, rendered (red).
pub fn connection_lost_line() -> (r: String)
    ensures
        styled("[Server] Connection lost. See you next time!"@, red_code(), r@),
{
    red("[Server] Connection lost. See you next time!")
}

/// The heading of the history listing, rendered (green).
pub fn history_heading() -> (r: String)
    ensures
        styled("[Server] Command History:"@, green_code(), r@),
{
    green("[Server] Command History:")
}

/// The text reporting where the player stands.
pub fn location_message(cwd: &str) -> (r: String)
    ensures
        r@ == "Your coordinates: "@ + cwd@,
{
    concat2("Your coordinates: ", cwd)
}

/// An outside effect of a built-in command, and the messages around it.
/// `done` is printed when the effect worked; on failure an error message is
/// printed: `fail` followed by the error.
pub enum Plan {
    /// Only print these lines.
    Print { lines: Vec<Line> },
    /// Change the working directory to `path`.
    Teleport { path: String, done: Line, fail: String },
    /// Report the working directory (see `location_message`).
    Locate,
    /// List the directory `path`: `header` first, then one line per entry.
    List { path: String, header: Line, fail: String },
    /// Create the directory `path` and its parents.
    MakeDir { path: String, done: Line, fail: String },
    /// Delete `path`: a directory with all it holds, or a file.
    Destroy { path: String, done: Line, fail: String },
    /// Create an empty file `path`.
    Summon { path: String, done: Line, fail: String },
    /// Copy the file `from` to `to`.
    Copy { from: String, to: String, done: Line, fail: String },
    /// Move or rename `from` to `to`.
    Rename { from: String, to: String, done: Line, fail: String },
    /// Print the contents of the file `path` after `header`.
    Read { path: String, header: Line, fail: String },
    /// Print `before`, run `program` with `args` on the terminal, print `after`
    /// (whether it ran or not).
    Run { program: String, args: Vec<String>, before: Vec<Line>, after: Vec<Line> },
    /// Print the help screen (see `help_lines`).
    Help,
    /// Clear the screen, then print `done`.
    Clear { done: Line },
    /// Print `farewell` and end the session.
    Exit { farewell: Line },
}

/// The mathematical form of a `Plan`.
pub enum PlanView {
    Print(Seq<(Seq<char>, Paint)>),
    Teleport(Seq<char>, (Seq<char>, Paint), Seq<char>),
    Locate,
    List(Seq<char>, (Seq<char>, Paint), Seq<char>),
    MakeDir(Seq<char>, (Seq<char>, Paint), Seq<char>),
    Destroy(Seq<char>, (Seq<char>, Paint), Seq<char>),
    Summon(Seq<char>, (Seq<char>, Paint), Seq<char>),
    Copy(Seq<char>, Seq<char>, (Seq<char>, Paint), Seq<char>),
    Rename(Seq<char>, Seq<char>, (Seq<char>, Paint), Seq<char>),
    Read(Seq<char>, (Seq<char>, Paint), Seq<char>),
    Run(Seq<char>, Seq<Seq<char>>, Seq<(Seq<char>, Paint)>, Seq<(Seq<char>, Paint)>),
    Help,
    Clear((Seq<char>, Paint)),
    Exit((Seq<char>, Paint)),
}

impl View for Plan {
    type V = PlanView;

    open spec fn view(&self) -> PlanView {
        match self {
            Plan::Print { lines } => PlanView::Print(line_views(lines@)),
            Plan::Teleport { path, done, fail } => PlanView::Teleport(path@, done@, fail@),
            Plan::Locate => PlanView::Locate,
            Plan::List { path, header, fail } => PlanView::List(path@, header@, fail@),
            Plan::MakeDir { path, done, fail } => PlanView::MakeDir(path@, done@, fail@),
            Plan::Destroy { path, done, fail } => PlanView::Destroy(path@, done@, fail@),
            Plan::Summon { path, done, fail } => PlanView::Summon(path@, done@, fail@),
            Plan::Copy { from, to, done, fail } => PlanView::Copy(from@, to@, done@, fail@),
            Plan::Rename { from, to, done, fail } => PlanView::Rename(from@, to@, done@, fail@),
            Plan::Read { path, header, fail } => PlanView::Read(path@, header@, fail@),
            Plan::Run { program, args, before, after } => PlanView::Run(
                program@,
                views(args@),
                line_views(before@),
                line_views(after@),
            ),
            Plan::Help => PlanView::Help,
            Plan::Clear { done } => PlanView::Clear(done@),
            Plan::Exit { farewell } => PlanView::Exit(farewell@),
        }
    }
}

/// A green server line, as a view.
pub open spec fn server(msg: Seq<char>) -> (Seq<char>, Paint) {
    (server_text(msg), Paint::Green)
}

/// The plan that only prints the usage line `msg`.
pub open spec fn usage(msg: Seq<char>) -> PlanView {
    PlanView::Print(seq![server(msg)])
}

/// The two words of a two-argument command (`args.splitn(2, ' ')` with two
/// parts): the text before the first space and the text after it.
pub open spec fn pair_of(args: Seq<char>) -> Option<(Seq<char>, Seq<char>)> {
    match after_first(args, ' ') {
        Some(b) => Some((before_first(args, ' '), b)),
        None => None,
    }
}

/// `r` is what `shellexpand::tilde` makes of `input`: a leading `~` that is
/// the whole input or is followed by `/` becomes the home directory (when
/// one is known); anything else stays as it is.
pub open spec fn tilde_expansion(input: Seq<char>, r: Seq<char>) -> bool {
    if input.len() > 0 && input[0] == '~' && (input.len() == 1 || input[1] == '/') {
        r == input || exists|home: Seq<char>| r == home + input.drop_first()
    } else {
        r == input
    }
}

/// Calls `shellexpand::tilde` and takes the result as a `String`.
/// The home directory comes from the environment (through `dirs::home_dir`),
/// so the result is stated only as `tilde_expansion` allows: the input
/// unchanged, or its leading `~` replaced by some text.
#[verifier::external_body]
fn expand_tilde(input: &str) -> (r: String)
    ensures
        tilde_expansion(input@, r@),
{
    shellexpand::tilde(input).to_string()
}

/// The message `/gamemode` prints for the (lower-cased) mode `mode`.
pub open spec fn gamemode_message(mode: Seq<char>) -> Seq<char> {
    if mode == "creative"@ || mode == "1"@ {
        "Game mode updated to Creative Mode. sudo who? 🧱"@
    } else if mode == "survival"@ || mode == "0"@ {
        "Game mode updated to Survival Mode. Stay safe out there! 🌲"@
    } else if mode == "hardcore"@ || mode == "3"@ {
        "Game mode updated to Hardcore Mode. One mistake and it's over. 💀"@
    } else if mode == "spectator"@ || mode == "2"@ {
        "Game mode updated to Spectator Mode. Just watching... 👻"@
    } else {
        "Usage: /gamemode <creative|survival|hardcore|spectator>"@
    }
}

/// The path of a teleport plan (empty for any other plan).
pub open spec fn teleport_path(p: PlanView) -> Seq<char> {
    match p {
        PlanView::Teleport(path, _, _) => path,
        _ => Seq::<char>::empty(),
    }
}

/// The plan of a command that needs one argument: its usage line when
/// `args` is empty.
pub open spec fn needs_arg(args: Seq<char>, usage_msg: Seq<char>, plan: PlanView) -> PlanView {
    if args.len() == 0 {
        usage(usage_msg)
    } else {
        plan
    }
}

/// What the built-in command `cmd` with arguments `args` does, for the user
/// `user` whose home is `home`; `expanded` is the tilde expansion of `args`
/// (used by `/tp` only).
pub open spec fn plan_of(
    cmd: Builtin,
    args: Seq<char>,
    user: Seq<char>,
    home: Seq<char>,
    expanded: Seq<char>,
) -> PlanView {
    match cmd {
        Builtin::Tp => needs_arg(
            args,
            "Usage: /tp <directory>"@,
            PlanView::Teleport(expanded, server("Teleported to "@ + args), "Could not teleport: "@),
        ),
        Builtin::Spawn => PlanView::Teleport(
            home,
            server("Teleported to spawn point!"@),
            "Could not teleport to spawn: "@,
        ),
        Builtin::Whereami => PlanView::Locate,
        Builtin::List => {
            let path = if args.len() == 0 {
                "."@
            } else {
                args
            };
            PlanView::List(path, server("Blocks in "@ + path + ":"@), "Could not list blocks: "@)
        },
        Builtin::Build => needs_arg(
            args,
            "Usage: /build <directory>"@,
            PlanView::MakeDir(args, server("Built structure: "@ + args), "Could not build: "@),
        ),
        Builtin::Destroy => needs_arg(
            args,
            "Usage: /destroy <path>"@,
            PlanView::Destroy(args, server("Destroyed: "@ + args), "Could not destroy: "@),
        ),
        Builtin::Summon => needs_arg(
            args,
            "Usage: /summon <filename>"@,
            PlanView::Summon(args, server("Summoned: "@ + args), "Could not summon: "@),
        ),
        Builtin::Clone => match pair_of(args) {
            None => usage("Usage: /clone <source> <destination>"@),
            Some((a, b)) => PlanView::Copy(
                a,
                b,
                server("Cloned "@ + a + " → "@ + b),
                "Could not clone: "@,
            ),
        },
        Builtin::Move => match pair_of(args) {
            None => usage("Usage: /move <source> <destination>"@),
            Some((a, b)) => PlanView::Rename(
                a,
                b,
                server("Moved "@ + a + " → "@ + b),
                "Could not move: "@,
            ),
        },
        Builtin::Read => needs_arg(
            args,
            "Usage: /read <filename>"@,
            PlanView::Read(args, server("Contents of "@ + args + ":"@), "Could not read: "@),
        ),
        Builtin::Enchant => match pair_of(args) {
            None => usage("Usage: /enchant <file> <mode> (e.g. /enchant script.sh 755)"@),
            Some((file, mode)) => PlanView::Run(
                "chmod"@,
                seq![mode, file],
                Seq::empty(),
                seq![server("Enchanted "@ + file + " with mode "@ + mode)],
            ),
        },
        Builtin::Op => needs_arg(
            args,
            "Usage: /op <file>"@,
            PlanView::Run(
                "chown"@,
                seq!["root:root"@, args],
                Seq::empty(),
                seq![server("Granted OP to: "@ + args)],
            ),
        ),
        Builtin::Entities => PlanView::Run(
            "ps"@,
            seq!["aux"@],
            seq![server("Entities loaded in this world:"@)],
            Seq::empty(),
        ),
        Builtin::Smite => needs_arg(
            args,
            "Usage: /smite <pid>"@,
            PlanView::Run(
                "kill"@,
                seq![args],
                Seq::empty(),
                seq![server("⚡ Smote process "@ + args + "!"@)],
            ),
        ),
        Builtin::Lag => PlanView::Run(
            "top"@,
            seq!["-bn1"@],
            seq![server("Checking server TPS (top)..."@)],
            Seq::empty(),
        ),
        Builtin::Seed => PlanView::Run(
            "env"@,
            Seq::empty(),
            seq![server("World seed (environment variables):"@)],
            Seq::empty(),
        ),
        Builtin::Say => PlanView::Print(seq![("[Server] "@ + args, Paint::YellowBold)]),
        Builtin::Kill => PlanView::Exit(
            ("[Server] Goodbye! Returning to title screen..."@, Paint::RedBold),
        ),
        Builtin::Help => PlanView::Help,
        Builtin::Clear => PlanView::Clear(server("Screen cleared."@)),
        Builtin::Me => PlanView::Print(seq![("* "@ + user + " "@ + args, Paint::ItalicWhite)]),
        Builtin::Gamemode => PlanView::Print(seq![server(gamemode_message(lower_text(args)))]),
        Builtin::Give => match pair_of(args) {
            None => usage("Usage: /give <player> <file>"@),
            Some((player, file)) => PlanView::Copy(
                file,
                "/home/"@ + player + "/"@ + base_name(file),
                server("Gave "@ + file + " to "@ + player + "!"@),
                "Could not give item: "@,
            ),
        },
    }
}

/// The plan that only prints the usage line `msg`.
fn usage_plan(msg: &str) -> (r: Plan)
    ensures
        r@ == usage(msg@),
{
    let lines = vec![server_line(msg)];
    assert(line_views(lines@) =~= seq![server(msg@)]);
    Plan::Print { lines }
}

/// `args.splitn(2, ' ')` when it has two parts.
pub fn split_pair(args: &str) -> (r: Option<(String, String)>)
    ensures
        match r {
            Some((a, b)) => pair_of(args@) == Some((a@, b@)),
            None => pair_of(args@) is None,
        },
{
    let (a, rest) = split_once(args, ' ');
    match rest {
        Some(b) => Some((a, b)),
        None => None,
    }
}

/// The message `/gamemode` prints for `mode` (already lower-cased).
pub fn gamemode_text(mode: &str) -> (r: &'static str)
    ensures
        r@ == gamemode_message(mode@),
{
    if text_eq(mode, "creative") || text_eq(mode, "1") {
        "Game mode updated to Creative Mode. sudo who? 🧱"
    } else if text_eq(mode, "survival") || text_eq(mode, "0") {
        "Game mode updated to Survival Mode. Stay safe out there! 🌲"
    } else if text_eq(mode, "hardcore") || text_eq(mode, "3") {
        "Game mode updated to Hardcore Mode. One mistake and it's over. 💀"
    } else if text_eq(mode, "spectator") || text_eq(mode, "2") {
        "Game mode updated to Spectator Mode. Just watching... 👻"
    } else {
        "Usage: /gamemode <creative|survival|hardcore|spectator>"
    }
}

/// A plan that runs `program` with `args`, printing `before` and `after`.
fn run_plan(program: &str, args: Vec<String>, before: Vec<Line>, after: Vec<Line>) -> (r: Plan)
    ensures
        r@ == PlanView::Run(program@, views(args@), line_views(before@), line_views(after@)),
{
    Plan::Run { program: program.to_owned(), args, before, after }
}

/// The plans of the commands that touch files and directories.
fn plan_files(cmd: Builtin, args: &str) -> (r: Plan)
    requires
        cmd == Builtin::List || cmd == Builtin::Build || cmd == Builtin::Destroy || cmd
            == Builtin::Summon || cmd == Builtin::Clone || cmd == Builtin::Move || cmd
            == Builtin::Read || cmd == Builtin::Give,
    ensures
        r@ == plan_of(cmd, args@, Seq::empty(), Seq::empty(), Seq::empty()),
{
    let empty = args.is_empty();
    match cmd {
        Builtin::List => {
            let path = if empty {
                ".".to_owned()
            } else {
                args.to_owned()
            };
            let header = server_line(concat3("Blocks in ", path.as_str(), ":").as_str());
            Plan::List { path, header, fail: "Could not list blocks: ".to_owned() }
        },
        Builtin::Build => {
            if empty {
                return usage_plan("Usage: /build <directory>");
            }
            let done = server_line(concat2("Built structure: ", args).as_str());
            Plan::MakeDir { path: args.to_owned(), done, fail: "Could not build: ".to_owned() }
        },
        Builtin::Destroy => {
            if empty {
                return usage_plan("Usage: /destroy <path>");
            }
            let done = server_line(concat2("Destroyed: ", args).as_str());
            Plan::Destroy { path: args.to_owned(), done, fail: "Could not destroy: ".to_owned() }
        },
        Builtin::Summon => {
            if empty {
                return usage_plan("Usage: /summon <filename>");
            }
            let done = server_line(concat2("Summoned: ", args).as_str());
            Plan::Summon { path: args.to_owned(), done, fail: "Could not summon: ".to_owned() }
        },
        Builtin::Read => {
            if empty {
                return usage_plan("Usage: /read <filename>");
            }
            let header = server_line(concat3("Contents of ", args, ":").as_str());
            Plan::Read { path: args.to_owned(), header, fail: "Could not read: ".to_owned() }
        },
        Builtin::Clone => match split_pair(args) {
            None => usage_plan("Usage: /clone <source> <destination>"),
            Some((a, b)) => {
                let text = concat4("Cloned ", a.as_str(), " → ", b.as_str());
                let done = server_line(text.as_str());
                Plan::Copy { from: a, to: b, done, fail: "Could not clone: ".to_owned() }
            },
        },
        Builtin::Move => match split_pair(args) {
            None => usage_plan("Usage: /move <source> <destination>"),
            Some((a, b)) => {
                let text = concat4("Moved ", a.as_str(), " → ", b.as_str());
                let done = server_line(text.as_str());
                Plan::Rename { from: a, to: b, done, fail: "Could not move: ".to_owned() }
            },
        },
        _ => match split_pair(args) {
            None => usage_plan("Usage: /give <player> <file>"),
            Some((player, file)) => {
                let name = base_name_of(file.as_str());
                let to = concat4("/home/", player.as_str(), "/", name.as_str());
                let text = concat4("Gave ", file.as_str(), " to ", player.as_str());
                let text = concat2(text.as_str(), "!");
                let done = server_line(text.as_str());
                Plan::Copy { from: file, to, done, fail: "Could not give item: ".to_owned() }
            },
        },
    }
}

/// The plans of the commands that run an outside program.
fn plan_programs(cmd: Builtin, args: &str) -> (r: Plan)
    requires
        cmd == Builtin::Enchant || cmd == Builtin::Op || cmd == Builtin::Entities || cmd
            == Builtin::Smite || cmd == Builtin::Lag || cmd == Builtin::Seed,
    ensures
        r@ == plan_of(cmd, args@, Seq::empty(), Seq::empty(), Seq::empty()),
{
    let empty = args.is_empty();
    match cmd {
        Builtin::Enchant => match split_pair(args) {
            None => usage_plan("Usage: /enchant <file> <mode> (e.g. /enchant script.sh 755)"),
            Some((file, mode)) => {
                let text = concat4("Enchanted ", file.as_str(), " with mode ", mode.as_str());
                let after = vec![server_line(text.as_str())];
                let argv = vec![mode, file];
                let none: Vec<Line> = Vec::new();
                assert(line_views(none@) =~= Seq::empty());
                assert(views(argv@) =~= seq![mode@, file@]);
                assert(line_views(after@) =~= seq![server(text@)]);
                run_plan("chmod", argv, none, after)
            },
        },
        Builtin::Op => {
            if empty {
                return usage_plan("Usage: /op <file>");
            }
            let after = vec![server_line(concat2("Granted OP to: ", args).as_str())];
            let argv = vec!["root:root".to_owned(), args.to_owned()];
            let none: Vec<Line> = Vec::new();
            assert(line_views(none@) =~= Seq::empty());
            assert(views(argv@) =~= seq!["root:root"@, args@]);
            assert(line_views(after@) =~= seq![server("Granted OP to: "@ + args@)]);
            run_plan("chown", argv, none, after)
        },
        Builtin::Entities => {
            let before = vec![server_line("Entities loaded in this world:")];
            let argv = vec!["aux".to_owned()];
            let none: Vec<Line> = Vec::new();
            assert(line_views(none@) =~= Seq::empty());
            assert(views(argv@) =~= seq!["aux"@]);
            assert(line_views(before@) =~= seq![server("Entities loaded in this world:"@)]);
            run_plan("ps", argv, before, none)
        },
        Builtin::Smite => {
            if empty {
                return usage_plan("Usage: /smite <pid>");
            }
            let after = vec![server_line(concat3("⚡ Smote process ", args, "!").as_str())];
            let argv = vec![args.to_owned()];
            let none: Vec<Line> = Vec::new();
            assert(line_views(none@) =~= Seq::empty());
            assert(views(argv@) =~= seq![args@]);
            assert(line_views(after@) =~= seq![server("⚡ Smote process "@ + args@ + "!"@)]);
            run_plan("kill", argv, none, after)
        },
        Builtin::Lag => {
            let before = vec![server_line("Checking server TPS (top)...")];
            let argv = vec!["-bn1".to_owned()];
            let none: Vec<Line> = Vec::new();
            assert(line_views(none@) =~= Seq::empty());
            assert(views(argv@) =~= seq!["-bn1"@]);
            assert(line_views(before@) =~= seq![server("Checking server TPS (top)..."@)]);
            run_plan("top", argv, before, none)
        },
        _ => {
            let before = vec![server_line("World seed (environment variables):")];
            let none: Vec<Line> = Vec::new();
            let argv: Vec<String> = Vec::new();
            assert(line_views(none@) =~= Seq::empty());
            assert(views(argv@) =~= Seq::empty());
            assert(line_views(before@) =~= seq![server("World seed (environment variables):"@)]);
            run_plan("env", argv, before, none)
        },
    }
}

/// What the built-in command `cmd` with arguments `args` does, for the user
/// named `user` whose home directory is `home`.
pub fn plan_builtin(cmd: Builtin, args: &str, user: &str, home: &str) -> (r: Plan)
    ensures
        r@ == plan_of(cmd, args@, user@, home@, teleport_path(r@)),
        cmd == Builtin::Tp && args@.len() > 0 ==> tilde_expansion(args@, teleport_path(r@)),
{
    match cmd {
        Builtin::Tp => {
            if args.is_empty() {
                return usage_plan("Usage: /tp <directory>");
            }
            let path = expand_tilde(args);
            let done = server_line(concat2("Teleported to ", args).as_str());
            Plan::Teleport { path, done, fail: "Could not teleport: ".to_owned() }
        },
        Builtin::Spawn => {
            let done = server_line("Teleported to spawn point!");
            Plan::Teleport {
                path: home.to_owned(),
                done,
                fail: "Could not teleport to spawn: ".to_owned(),
            }
        },
        Builtin::Whereami => Plan::Locate,
        Builtin::List | Builtin::Build | Builtin::Destroy | Builtin::Summon | Builtin::Clone
        | Builtin::Move | Builtin::Read | Builtin::Give => plan_files(cmd, args),
        Builtin::Enchant | Builtin::Op | Builtin::Entities | Builtin::Smite | Builtin::Lag
        | Builtin::Seed => plan_programs(cmd, args),
        Builtin::Say => {
            let lines = vec![Line { text: concat2("[Server] ", args), paint: Paint::YellowBold }];
            assert(line_views(lines@) =~= seq![("[Server] "@ + args@, Paint::YellowBold)]);
            Plan::Print { lines }
        },
        Builtin::Kill => Plan::Exit {
            farewell: Line {
                text: "[Server] Goodbye! Returning to title screen...".to_owned(),
                paint: Paint::RedBold,
            },
        },
        Builtin::Help => Plan::Help,
        Builtin::Clear => Plan::Clear { done: server_line("Screen cleared.") },
        Builtin::Me => {
            let lines = vec![Line { text: concat4("* ", user, " ", args), paint: Paint::ItalicWhite }];
            assert(line_views(lines@) =~= seq![("* "@ + user@ + " "@ + args@, Paint::ItalicWhite)]);
            Plan::Print { lines }
        },
        Builtin::Gamemode => {
            let mode = to_lowercase(args);
            let lines = vec![server_line(gamemode_text(mode.as_str()))];
            assert(line_views(lines@) =~= seq![server(gamemode_message(lower_text(args@)))]);
            Plan::Print { lines }
        },
    }
}

/// The file commands act on the text they were given, unchanged: `/build`,
/// `/destroy`, `/summon` and `/read` on their whole argument text and
/// `/list` on it or, without one, on `.`; `/clone` and `/move` on the text
/// before the first space and the text after it, which together with that
/// space are the argument text; `/give` copies the text after the first
/// space into the home of the player named before it, under its last path
/// component. Without an argument, each of them only prints its usage.
pub proof fn law_file_commands_use_their_arguments(
    args: Seq<char>,
    user: Seq<char>,
    home: Seq<char>,
    expanded: Seq<char>,
)
    ensures
        args.len() > 0 ==> (plan_of(Builtin::Build, args, user, home, expanded) matches PlanView::MakeDir(
            p,
            _,
            _,
        ) && p == args),
        args.len() > 0 ==> (plan_of(Builtin::Destroy, args, user, home, expanded) matches PlanView::Destroy(
            p,
            _,
            _,
        ) && p == args),
        args.len() > 0 ==> (plan_of(Builtin::Summon, args, user, home, expanded) matches PlanView::Summon(
            p,
            _,
            _,
        ) && p == args),
        args.len() > 0 ==> (plan_of(Builtin::Read, args, user, home, expanded) matches PlanView::Read(
            p,
            _,
            _,
        ) && p == args),
        plan_of(Builtin::List, args, user, home, expanded) matches PlanView::List(p, _, _) && p == (
        if args.len() > 0 {
            args
        } else {
            "."@
        }),
        args.contains(' ') ==> (plan_of(Builtin::Clone, args, user, home, expanded) matches PlanView::Copy(
            a,
            b,
            _,
            _,
        ) && a + " "@ + b == args && !a.contains(' ')),
        args.contains(' ') ==> (plan_of(Builtin::Move, args, user, home, expanded) matches PlanView::Rename(
            a,
            b,
            _,
            _,
        ) && a + " "@ + b == args && !a.contains(' ')),
        args.contains(' ') ==> (plan_of(Builtin::Give, args, user, home, expanded) matches PlanView::Copy(
            a,
            b,
            _,
            _,
        ) && exists|player: Seq<char>|
            player + " "@ + a == args && !player.contains(' ') && b == "/home/"@ + player + "/"@
                + base_name(a)),
        args.len() == 0 ==> plan_of(Builtin::Build, args, user, home, expanded) is Print
            && plan_of(Builtin::Destroy, args, user, home, expanded) is Print && plan_of(
            Builtin::Summon,
            args,
            user,
            home,
            expanded,
        ) is Print && plan_of(Builtin::Read, args, user, home, expanded) is Print,
{
    reveal_strlit(" ");
    if args.contains(' ') {
        law_split_once_reassembles(args, ' ');
        let a = before_first(args, ' ');
        assert(after_first(args, ' ') is Some);
        let b = after_first(args, ' ')->0;
        assert(" "@ =~= seq![' ']);
        assert(a + " "@ + b =~= a.push(' ') + b);
    }
}

} // verus!
