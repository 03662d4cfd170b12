//! Syntax highlighting of the line being typed: chat dimmed, known commands
//! and their aliases in gold, unknown commands in red, a lone slash in
//! yellow, arguments in cyan.

use vstd::prelude::*;
use vstd::string::StrSliceExecFns;

use crate::commands::{all_aliases, all_commands, command_aliases, known_commands, str_views};
use crate::style::{reset, styled};
use crate::text::{
    after_first, before_first, concat2, concat3, eq_ignore_ascii_case, eq_ignore_case,
    has_substring, law_split_once_reassembles, split_once,
};

verus! {

/// The shell's highlighter.
pub struct McshHighlighter;

/// `cmd` is one of `cmds`, ignoring ASCII case.
pub open spec fn is_one_of(cmds: Seq<Seq<char>>, cmd: Seq<char>) -> bool {
    exists|i: int| 0 <= i < cmds.len() && eq_ignore_ascii_case(#[trigger] cmds[i], cmd)
}

/// `cmd` is one of the known commands or of their aliases, ignoring ASCII case.
pub open spec fn is_known_command(cmd: Seq<char>) -> bool {
    is_one_of(known_commands(), cmd) || is_one_of(command_aliases(), cmd)
}

/// How the command word of a slash line is coloured: gold when known, red
/// when it is more than the slash, yellow when it is the slash alone (the
/// word starts with `/`, a one-byte character, so it is longer than one
/// character exactly when it is longer than one byte).
pub open spec fn command_colour(cmd: Seq<char>) -> Seq<char> {
    if is_known_command(cmd) {
        "\x1b[33;1m"@ + cmd + "\x1b[0m"@
    } else if cmd.len() > 1 {
        "\x1b[31m"@ + cmd + "\x1b[0m"@
    } else {
        "\x1b[33m"@ + cmd + "\x1b[0m"@
    }
}

/// The highlighted form of `line`.
pub open spec fn highlight_of(line: Seq<char>) -> Seq<char> {
    if line.len() == 0 {
        line
    } else if line[0] != '/' {
        "\x1b[2m"@ + line + "\x1b[0m"@
    } else {
        let cmd = before_first(line, ' ');
        let args = match after_first(line, ' ') {
            Some(a) => a,
            None => Seq::<char>::empty(),
        };
        if args.len() == 0 {
            command_colour(cmd)
        } else {
            command_colour(cmd) + " \x1b[36m"@ + args + "\x1b[0m"@
        }
    }
}

/// Whether `cmd` is one of `cmds`, ignoring ASCII case.
fn one_of(cmds: &Vec<&str>, cmd: &str) -> (r: bool)
    ensures
        r == is_one_of(str_views(cmds@), cmd@),
{
    let n = cmds.len();
    let mut i: usize = 0;
    while i < n
        invariant
            i <= n,
            n == cmds@.len(),
            forall|j: int| 0 <= j < i ==> !eq_ignore_ascii_case(#[trigger] str_views(cmds@)[j], cmd@),
        decreases n - i,
    {
        assert(str_views(cmds@)[i as int] == cmds@[i as int]@);
        if eq_ignore_case(cmds[i], cmd) {
            return true;
        }
        i += 1;
    }
    false
}

/// Whether `cmd` is one of the known commands or of their aliases, ignoring
/// ASCII case.
fn known_command(cmd: &str) -> (r: bool)
    ensures
        r == is_known_command(cmd@),
{
    let cmds = all_commands();
    if one_of(&cmds, cmd) {
        return true;
    }
    let aliases = all_aliases();
    one_of(&aliases, cmd)
}

impl McshHighlighter {
    /// The line with its colours: dimmed when it is chat; for a slash line,
    /// the command word gold when known or an alias (ignoring ASCII case),
    /// red when unknown, yellow when it is just `/`, and the arguments cyan.
    pub fn highlight(&self, line: &str, pos: usize) -> (r: String)
        ensures
            r@ == highlight_of(line@),
    {
        if line.is_empty() {
            return line.to_owned();
        }
        let lc = crate::text::chars_of(line);
        if lc[0] != '/' {
            return concat3("\x1b[2m", line, "\x1b[0m");
        }
        let (cmd, rest) = split_once(line, ' ');
        let args = match rest {
            Some(a) => a,
            None => String::new(),
        };
        let colored = if known_command(cmd.as_str()) {
            concat3("\x1b[33;1m", cmd.as_str(), "\x1b[0m")
        } else if cmd.as_str().unicode_len() > 1 {
            concat3("\x1b[31m", cmd.as_str(), "\x1b[0m")
        } else {
            concat3("\x1b[33m", cmd.as_str(), "\x1b[0m")
        };
        if args.as_str().is_empty() {
            colored
        } else {
            let tail = concat3(" \x1b[36m", args.as_str(), "\x1b[0m");
            concat2(colored.as_str(), tail.as_str())
        }
    }

    /// The autosuggestion as shown: dimmed.
    pub fn highlight_hint(&self, hint: &str) -> (r: String)
        ensures
            r@ == "\x1b[2m"@ + hint@ + "\x1b[0m"@,
    {
        concat3("\x1b[2m", hint, "\x1b[0m")
    }

    /// Whether the line is highlighted again as the cursor moves: always.
    pub fn highlight_char(&self, line: &str, pos: usize) -> (r: bool)
        ensures
            r,
    {
        true
    }
}

/// The rest of `s` after its first `m`: what follows the end of an escape
/// sequence whose `ESC` has been read.
pub open spec fn after_escape(s: Seq<char>) -> Seq<char>
    decreases s.len(),
{
    if s.len() == 0 {
        s
    } else if s[0] == 'm' {
        s.drop_first()
    } else {
        after_escape(s.drop_first())
    }
}

/// Skipping an escape sequence never makes text longer.
pub proof fn lemma_after_escape_shorter(s: Seq<char>)
    ensures
        after_escape(s).len() <= s.len(),
    decreases s.len(),
{
    if s.len() > 0 && s[0] != 'm' {
        lemma_after_escape_shorter(s.drop_first());
    }
}

/// `s` as it reads on a terminal: without its escape sequences (`ESC` up to
/// and including the next `m`).
pub open spec fn visible(s: Seq<char>) -> Seq<char>
    decreases s.len(),
{
    if s.len() == 0 {
        s
    } else if s[0] == '\x1b' {
        proof {
            lemma_after_escape_shorter(s.drop_first());
        }
        visible(after_escape(s.drop_first()))
    } else {
        seq![s[0]] + visible(s.drop_first())
    }
}

/// Text without escapes reads as itself.
pub proof fn lemma_visible_plain(y: Seq<char>, x: Seq<char>)
    requires
        !y.contains('\x1b'),
    ensures
        visible(y + x) == y + visible(x),
    decreases y.len(),
{
    if y.len() == 0 {
        assert(y + x =~= x);
        assert(y + visible(x) =~= visible(x));
    } else {
        assert(!y.drop_first().contains('\x1b')) by {
            if y.drop_first().contains('\x1b') {
                let k = choose|k: int| 0 <= k < y.drop_first().len() && y.drop_first()[k] == '\x1b';
                assert(y[k + 1] == '\x1b');
            }
        }
        lemma_visible_plain(y.drop_first(), x);
        assert((y + x).drop_first() =~= y.drop_first() + x);
        assert((y + x)[0] == y[0]);
        assert(y + visible(x) =~= seq![y[0]] + (y.drop_first() + visible(x)));
    }
}

/// Skipping an escape body that ends at its first `m`.
proof fn lemma_after_escape_concat(mid: Seq<char>, x: Seq<char>)
    requires
        !mid.contains('m'),
    ensures
        after_escape(mid.push('m') + x) == x,
    decreases mid.len(),
{
    if mid.len() == 0 {
        assert((mid.push('m') + x).drop_first() =~= x);
    } else {
        assert(!mid.drop_first().contains('m')) by {
            if mid.drop_first().contains('m') {
                let k = choose|k: int| 0 <= k < mid.drop_first().len() && mid.drop_first()[k] == 'm';
                assert(mid[k + 1] == 'm');
            }
        }
        lemma_after_escape_concat(mid.drop_first(), x);
        assert((mid.push('m') + x).drop_first() =~= mid.drop_first().push('m') + x);
        assert((mid.push('m') + x)[0] == mid[0]);
    }
}

/// An escape sequence reads as nothing.
proof fn lemma_visible_escape(mid: Seq<char>, x: Seq<char>)
    requires
        !mid.contains('m'),
    ensures
        visible(seq!['\x1b'] + mid.push('m') + x) == visible(x),
{
    let s = seq!['\x1b'] + mid.push('m') + x;
    assert(s.drop_first() =~= mid.push('m') + x);
    lemma_after_escape_concat(mid, x);
}

/// `mid` holds no `m`.
proof fn lemma_no_m(mid: Seq<char>)
    requires
        forall|k: int| 0 <= k < mid.len() ==> mid[k] != 'm',
    ensures
        !mid.contains('m'),
{
}

/// A text that a colouring may have wrapped reads as the text itself, when
/// neither the text holds an escape character nor the colour code an `m`.
pub proof fn lemma_visible_styled(s: Seq<char>, code: Seq<char>, r: Seq<char>, rest: Seq<char>)
    requires
        !s.contains('\x1b'),
        !code.contains('m'),
        styled(s, code, r),
    ensures
        visible(r + rest) == s + visible(rest),
{
    if has_substring(s, reset()) {
        let i = choose|i: int|
            0 <= i && i + reset().len() <= s.len() && #[trigger] s.subrange(i, i + reset().len())
                == reset();
        assert(s.subrange(i, i + reset().len())[0] == s[i]);
        assert(false);
    }
    if r == s {
        lemma_visible_plain(s, rest);
    } else {
        let mid = seq!['['] + code;
        assert(!mid.contains('m')) by {
            if mid.contains('m') {
                let k = choose|k: int| 0 <= k < mid.len() && mid[k] == 'm';
                assert(code[k - 1] == 'm');
            }
        }
        let zero = seq!['[', '0'];
        lemma_no_m(zero);
        lemma_visible_escape(zero, rest);
        assert(reset() + rest =~= seq!['\x1b'] + zero.push('m') + rest);
        lemma_visible_plain(s, reset() + rest);
        lemma_visible_escape(mid, s + (reset() + rest));
        assert(r + rest =~= seq!['\x1b'] + mid.push('m') + (s + (reset() + rest)));
    }
}

/// Highlighting only adds colour: with its escape sequences removed, the
/// highlighted line reads as the line itself. This holds for every line
/// without escape characters of its own, except a slash line whose first
/// space is its last character (a line like `/list ` loses that space).
pub proof fn law_highlight_keeps_text(line: Seq<char>)
    requires
        !line.contains('\x1b'),
        line.len() > 0 && line[0] == '/' ==> after_first(line, ' ') != Some(Seq::<char>::empty()),
    ensures
        visible(highlight_of(line)) == line,
{
    reveal_strlit("\x1b[0m");
    reveal_strlit("\x1b[2m");
    reveal_strlit("\x1b[33;1m");
    reveal_strlit("\x1b[31m");
    reveal_strlit("\x1b[33m");
    reveal_strlit(" \x1b[36m");
    let reset_mid = seq!['[', '0'];
    lemma_no_m(reset_mid);
    assert("\x1b[0m"@ =~= seq!['\x1b'] + reset_mid.push('m'));
    lemma_visible_escape(reset_mid, Seq::<char>::empty());
    assert(seq!['\x1b'] + reset_mid.push('m') + Seq::<char>::empty() =~= "\x1b[0m"@);
    let e = Seq::<char>::empty();
    assert(visible("\x1b[0m"@) == e);
    if line.len() == 0 {
    } else if line[0] != '/' {
        let dim = seq!['[', '2'];
        lemma_no_m(dim);
        lemma_visible_escape(dim, line + "\x1b[0m"@);
        assert("\x1b[2m"@ + line + "\x1b[0m"@ =~= seq!['\x1b'] + dim.push('m') + (line + "\x1b[0m"@));
        lemma_visible_plain(line, "\x1b[0m"@);
        assert(line + e =~= line);
    } else {
        law_split_once_reassembles(line, ' ');
        let cmd = before_first(line, ' ');
        assert(!cmd.contains('\x1b')) by {
            if cmd.contains('\x1b') {
                let k = choose|k: int| 0 <= k < cmd.len() && cmd[k] == '\x1b';
                assert(line[k] == cmd[k]);
            }
        }
        let mid = if is_known_command(cmd) {
            seq!['[', '3', '3', ';', '1']
        } else if cmd.len() > 1 {
            seq!['[', '3', '1']
        } else {
            seq!['[', '3', '3']
        };
        lemma_no_m(mid);
        let open = seq!['\x1b'] + mid.push('m');
        assert(command_colour(cmd) =~= open + cmd + "\x1b[0m"@);
        match after_first(line, ' ') {
            None => {
                lemma_visible_escape(mid, cmd + "\x1b[0m"@);
                assert(open + cmd + "\x1b[0m"@ =~= seq!['\x1b'] + mid.push('m') + (cmd + "\x1b[0m"@));
                lemma_visible_plain(cmd, "\x1b[0m"@);
                assert(cmd + e =~= cmd);
            },
            Some(args) => {
                assert(!args.contains('\x1b')) by {
                    if args.contains('\x1b') {
                        let k = choose|k: int| 0 <= k < args.len() && args[k] == '\x1b';
                        assert(line[cmd.len() + 1 + k] == args[k]);
                    }
                }
                let cyan = seq!['[', '3', '6'];
                lemma_no_m(cyan);
                let tail = args + "\x1b[0m"@;
                lemma_visible_plain(args, "\x1b[0m"@);
                lemma_visible_escape(cyan, tail);
                let after_space = seq!['\x1b'] + cyan.push('m') + tail;
                lemma_visible_plain(seq![' '], after_space);
                assert(!seq![' '].contains('\x1b')) by {
                    assert(seq![' '][0] == ' ');
                }
                let rest = seq![' '] + after_space;
                lemma_visible_plain(cmd, "\x1b[0m"@ + rest);
                lemma_visible_escape(reset_mid, rest);
                lemma_visible_escape(mid, cmd + ("\x1b[0m"@ + rest));
                assert(highlight_of(line) =~= seq!['\x1b'] + mid.push('m') + (cmd + ("\x1b[0m"@ + rest)));
                assert("\x1b[0m"@ + rest =~= seq!['\x1b'] + reset_mid.push('m') + rest);
                assert(args + e =~= args);
                assert(line =~= cmd + (seq![' '] + args));
            },
        }
    }
}

} // verus!
