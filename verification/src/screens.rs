//! The screens the shell prints whole: the welcome banner, the help menu
//! and the command history.

use vstd::prelude::*;

use crate::builtins::{line_views, Line, Paint};
use crate::style::{
    cyan_bold, cyan_bold_code, dimmed, dimmed_code, green_bold, green_bold_code, pad_right, styled,
    yellow_code, yellow_padded,
};
use crate::text::{concat2, concat4};

verus! {

/// A line of the welcome banner.
fn motd_line(text: &str, paint: Paint) -> (r: Line)
    ensures
        r@ == (text@, paint),
{
    Line { text: text.to_owned(), paint }
}

/// The welcome banner, line by line.
pub open spec fn motd_layout() -> Seq<(Seq<char>, Paint)> {
    seq![
        (""@, Paint::Plain),
        ("  ███╗   ███╗ ██████╗███████╗██╗  ██╗"@, Paint::GreenBold),
        ("  ████╗ ████║██╔════╝██╔════╝██║  ██║"@, Paint::GreenBold),
        ("  ██╔████╔██║██║     ███████╗███████║"@, Paint::GreenBold),
        ("  ██║╚██╔╝██║██║     ╚════██║██╔══██║"@, Paint::GreenBold),
        ("  ██║ ╚═╝ ██║╚██████╗███████║██║  ██║"@, Paint::GreenBold),
        ("  ╚═╝     ╚═╝ ╚═════╝╚══════╝╚═╝  ╚═╝"@, Paint::GreenBold),
        (""@, Paint::Plain),
        ("  Minecraft Shell v0.1.0"@, Paint::YellowBold),
        ("  A world where every command starts with /"@, Paint::Dimmed),
        (""@, Paint::Plain),
        ("  [Server] Welcome to the server!"@, Paint::Green),
        ("  [Server] Type /help for a list of commands."@, Paint::Green),
        ("  [Server] Text without / will be sent as chat."@, Paint::Green),
        (""@, Paint::Plain),
    ]
}

/// The welcome banner printed when the shell starts.
pub fn motd_lines() -> (r: Vec<Line>)
    ensures
        line_views(r@) == motd_layout(),
{
    let r = vec![
        motd_line("", Paint::Plain),
        motd_line("  ███╗   ███╗ ██████╗███████╗██╗  ██╗", Paint::GreenBold),
        motd_line("  ████╗ ████║██╔════╝██╔════╝██║  ██║", Paint::GreenBold),
        motd_line("  ██╔████╔██║██║     ███████╗███████║", Paint::GreenBold),
        motd_line("  ██║╚██╔╝██║██║     ╚════██║██╔══██║", Paint::GreenBold),
        motd_line("  ██║ ╚═╝ ██║╚██████╗███████║██║  ██║", Paint::GreenBold),
        motd_line("  ╚═╝     ╚═╝ ╚═════╝╚══════╝╚═╝  ╚═╝", Paint::GreenBold),
        motd_line("", Paint::Plain),
        motd_line("  Minecraft Shell v0.1.0", Paint::YellowBold),
        motd_line("  A world where every command starts with /", Paint::Dimmed),
        motd_line("", Paint::Plain),
        motd_line("  [Server] Welcome to the server!", Paint::Green),
        motd_line("  [Server] Type /help for a list of commands.", Paint::Green),
        motd_line("  [Server] Text without / will be sent as chat.", Paint::Green),
        motd_line("", Paint::Plain),
    ];
    assert(line_views(r@) =~= motd_layout());
    r
}

/// A line of the help menu.
pub enum HelpLine {
    /// The heading (bold green).
    Title(&'static str),
    /// A section name (bold cyan).
    Section(&'static str),
    /// A command's usage, in a yellow column of 30 characters, and what it does.
    Entry(&'static str, &'static str),
    /// An empty line.
    Blank,
    /// A tip (dimmed).
    Tip(&'static str),
}

/// The mathematical form of a `HelpLine`.
pub enum HelpLineView {
    Title(Seq<char>),
    Section(Seq<char>),
    Entry(Seq<char>, Seq<char>),
    Blank,
    Tip(Seq<char>),
}

impl View for HelpLine {
    type V = HelpLineView;

    open spec fn view(&self) -> HelpLineView {
        match self {
            HelpLine::Title(t) => HelpLineView::Title(t@),
            HelpLine::Section(t) => HelpLineView::Section(t@),
            HelpLine::Entry(c, d) => HelpLineView::Entry(c@, d@),
            HelpLine::Blank => HelpLineView::Blank,
            HelpLine::Tip(t) => HelpLineView::Tip(t@),
        }
    }
}

/// The views of a sequence of help lines.
pub open spec fn help_views(v: Seq<HelpLine>) -> Seq<HelpLineView> {
    v.map_values(|l: HelpLine| l@)
}

/// The help menu, line by line.
pub open spec fn help_layout() -> Seq<HelpLineView> {
    seq![
        HelpLineView::Title("\n[Server] Available Commands:\n"@),
        HelpLineView::Section("🗺️  Navigation"@),
        HelpLineView::Entry("/tp <dir>"@, "Teleport to a directory"@),
        HelpLineView::Entry("/spawn"@, "Go to home directory"@),
        HelpLineView::Entry("/whereami"@, "Show current location"@),
        HelpLineView::Blank,
        HelpLineView::Section("📦  Files & Directories"@),
        HelpLineView::Entry("/list [dir]"@, "List files"@),
        HelpLineView::Entry("/build <dir>"@, "Create a directory"@),
        HelpLineView::Entry("/destroy <path>"@, "Delete file or folder"@),
        HelpLineView::Entry("/summon <file>"@, "Create empty file"@),
        HelpLineView::Entry("/clone <src> <dst>"@, "Copy a file"@),
        HelpLineView::Entry("/move <src> <dst>"@, "Move or rename a file"@),
        HelpLineView::Entry("/read <file>"@, "Print file contents"@),
        HelpLineView::Blank,
        HelpLineView::Section("🔐  Permissions"@),
        HelpLineView::Entry("/enchant <file> <mode>"@, "Change permissions (chmod)"@),
        HelpLineView::Entry("/op <file>"@, "Change ownership (chown)"@),
        HelpLineView::Blank,
        HelpLineView::Section("⚙️  System"@),
        HelpLineView::Entry("/entities"@, "List running processes"@),
        HelpLineView::Entry("/smite <pid>"@, "Kill a process"@),
        HelpLineView::Entry("/lag"@, "Show resource usage (top)"@),
        HelpLineView::Entry("/seed"@, "Show environment variables"@),
        HelpLineView::Blank,
        HelpLineView::Section("💬  Builtins"@),
        HelpLineView::Entry("/say <msg>"@, "Print a message"@),
        HelpLineView::Entry("/me <action>"@, "Narrate an action"@),
        HelpLineView::Entry("/gamemode <mode>"@, "creative / survival / hardcore / spectator"@),
        HelpLineView::Entry("/give <player> <file>"@, "Copy file to another user"@),
        HelpLineView::Entry("/help"@, "Show this menu"@),
        HelpLineView::Entry("/history"@, "Show command history"@),
        HelpLineView::Entry("/clear"@, "Clear the screen"@),
        HelpLineView::Entry("/kill"@, "Exit the shell"@),
        HelpLineView::Blank,
        HelpLineView::Tip("💡 Tip: Any /command not listed above runs as a raw bash command."@),
        HelpLineView::Tip("🔧 Tip: Chain raw commands with | e.g. /cat f.txt | /grep hi | /wc -l"@),
        HelpLineView::Tip("💬 Tip: Text without / is sent as chat.\n"@),
    ]
}

/// The help menu.
pub fn help_lines() -> (r: Vec<HelpLine>)
    ensures
        help_views(r@) == help_layout(),
{
    let r = vec![
        HelpLine::Title("\n[Server] Available Commands:\n"),
        HelpLine::Section("🗺️  Navigation"),
        HelpLine::Entry("/tp <dir>", "Teleport to a directory"),
        HelpLine::Entry("/spawn", "Go to home directory"),
        HelpLine::Entry("/whereami", "Show current location"),
        HelpLine::Blank,
        HelpLine::Section("📦  Files & Directories"),
        HelpLine::Entry("/list [dir]", "List files"),
        HelpLine::Entry("/build <dir>", "Create a directory"),
        HelpLine::Entry("/destroy <path>", "Delete file or folder"),
        HelpLine::Entry("/summon <file>", "Create empty file"),
        HelpLine::Entry("/clone <src> <dst>", "Copy a file"),
        HelpLine::Entry("/move <src> <dst>", "Move or rename a file"),
        HelpLine::Entry("/read <file>", "Print file contents"),
        HelpLine::Blank,
        HelpLine::Section("🔐  Permissions"),
        HelpLine::Entry("/enchant <file> <mode>", "Change permissions (chmod)"),
        HelpLine::Entry("/op <file>", "Change ownership (chown)"),
        HelpLine::Blank,
        HelpLine::Section("⚙️  System"),
        HelpLine::Entry("/entities", "List running processes"),
        HelpLine::Entry("/smite <pid>", "Kill a process"),
        HelpLine::Entry("/lag", "Show resource usage (top)"),
        HelpLine::Entry("/seed", "Show environment variables"),
        HelpLine::Blank,
        HelpLine::Section("💬  Builtins"),
        HelpLine::Entry("/say <msg>", "Print a message"),
        HelpLine::Entry("/me <action>", "Narrate an action"),
        HelpLine::Entry("/gamemode <mode>", "creative / survival / hardcore / spectator"),
        HelpLine::Entry("/give <player> <file>", "Copy file to another user"),
        HelpLine::Entry("/help", "Show this menu"),
        HelpLine::Entry("/history", "Show command history"),
        HelpLine::Entry("/clear", "Clear the screen"),
        HelpLine::Entry("/kill", "Exit the shell"),
        HelpLine::Blank,
        HelpLine::Tip("💡 Tip: Any /command not listed above runs as a raw bash command."),
        HelpLine::Tip("🔧 Tip: Chain raw commands with | e.g. /cat f.txt | /grep hi | /wc -l"),
        HelpLine::Tip("💬 Tip: Text without / is sent as chat.\n"),
    ];
    assert(help_views(r@) =~= help_layout());
    r
}

/// `r` is how the help line `l` shows on the terminal.
pub open spec fn help_line_shape(l: HelpLineView, r: Seq<char>) -> bool {
    match l {
        HelpLineView::Title(t) => styled(t, green_bold_code(), r),
        HelpLineView::Section(t) => styled(t, cyan_bold_code(), r),
        HelpLineView::Entry(c, d) => {
            let y = r.subrange(2, r.len() - 1 - d.len());
            &&& r.len() >= 3 + d.len()
            &&& styled(pad_right(c, 30), yellow_code(), y)
            &&& r == "  "@ + y + " "@ + d
        },
        HelpLineView::Blank => r.len() == 0,
        HelpLineView::Tip(t) => styled(t, dimmed_code(), r),
    }
}

/// Renders a help line for the terminal.
pub fn render_help_line(l: &HelpLine) -> (r: String)
    ensures
        help_line_shape(l@, r@),
{
    match l {
        HelpLine::Title(t) => green_bold(t),
        HelpLine::Section(t) => cyan_bold(t),
        HelpLine::Entry(c, d) => {
            let y = yellow_padded(c, 30);
            let r = concat4("  ", y.as_str(), " ", d);
            proof {
                reveal_strlit("  ");
                reveal_strlit(" ");
                assert(r@.subrange(2, r@.len() - 1 - d@.len()) =~= y@);
            }
            r
        },
        HelpLine::Blank => String::new(),
        HelpLine::Tip(t) => dimmed(t),
    }
}

/// The decimal digits of `n`.
pub open spec fn decimal(n: nat) -> Seq<char>
    decreases n,
{
    if n < 10 {
        seq![(('0' as u32) + n) as char]
    } else {
        decimal(n / 10).push((('0' as u32) + n % 10) as char)
    }
}

/// Spaces before `s` up to `width` characters (how `{:width}` pads a number).
pub open spec fn pad_left(s: Seq<char>, width: nat) -> Seq<char> {
    if s.len() >= width {
        s
    } else {
        Seq::new((width - s.len()) as nat, |i: int| ' ') + s
    }
}

/// The decimal digits of `n`.
fn decimal_of(n: usize) -> (r: Vec<char>)
    ensures
        r@ == decimal(n as nat),
    decreases n,
{
    if n < 10 {
        let d = (('0' as u32) + (n as u32)) as u8 as char;
        assert(d == (('0' as u32) + n) as char);
        vec![d]
    } else {
        let mut r = decimal_of(n / 10);
        let d = (('0' as u32) + ((n % 10) as u32)) as u8 as char;
        r.push(d);
        r
    }
}

/// The characters of `v` after enough spaces to fill `width`.
fn padded_left(v: &Vec<char>, width: usize) -> (r: String)
    ensures
        r@ == pad_left(v@, width as nat),
{
    let mut r = String::new();
    let n = v.len();
    if n < width {
        let mut k: usize = 0;
        while k < width - n
            invariant
                k <= width - n,
                n < width,
                r@ == Seq::new(k as nat, |i: int| ' '),
            decreases width - n - k,
        {
            r.push(' ');
            assert(r@ =~= Seq::new((k + 1) as nat, |i: int| ' '));
            k += 1;
        }
    }
    let ghost spaces = r@;
    let mut i: usize = 0;
    while i < n
        invariant
            i <= n,
            n == v@.len(),
            r@ == spaces + v@.take(i as int),
        decreases n - i,
    {
        r.push(v[i]);
        assert(v@.take(i + 1) =~= v@.take(i as int).push(v@[i as int]));
        i += 1;
    }
    assert(v@.take(n as int) =~= v@);
    assert(n >= width ==> spaces =~= Seq::<char>::empty());
    r
}

/// One line of the history listing: the entry's number right-aligned in
/// three columns and the entry dimmed, each after two spaces.
pub fn history_line(number: usize, entry: &str) -> (r: String)
    ensures
        exists|c: Seq<char>|
            styled(entry@, dimmed_code(), c) && r@ == "  "@ + pad_left(decimal(number as nat), 3)
                + "  "@ + c,
{
    let digits = decimal_of(number);
    let num = padded_left(&digits, 3);
    let c = dimmed(entry);
    concat4("  ", num.as_str(), "  ", c.as_str())
}

/// The file the history is kept in, under the home directory `home`.
pub fn get_history_path(home: &str) -> (r: String)
    ensures
        r@ == home@ + "/.mcsh_history"@,
{
    concat2(home, "/.mcsh_history")
}

} // verus!
