//! Autosuggestions: while a slash command is typed, the rest of the one
//! known command it can still become, shown as ghost text.

use vstd::prelude::*;
use vstd::string::StringSliceAdditionalSpecFns;
use vstd::utf8::encode_utf8;

use crate::commands::{all_commands, known_commands, str_views};
use crate::text::{before_end, chars_of, contains_char, starts_with_str, string_of, text_eq};

verus! {

/// The shell's hinter.
pub struct McshHinter;

/// A suggestion: the text that would complete the command.
#[derive(Clone, Debug)]
pub struct CommandHint(String);

impl CommandHint {
    /// A hint showing `text`.
    pub fn new(text: String) -> (r: Self)
        ensures
            r.text() == text@,
    {
        CommandHint(text)
    }

    /// The text of the hint.
    pub closed spec fn text(&self) -> Seq<char> {
        self.0@
    }

    /// What is shown: the hint's text.
    pub fn display(&self) -> (r: &str)
        ensures
            r@ == self.text(),
    {
        self.0.as_str()
    }

    /// What accepting the hint inserts: the hint's text.
    pub fn completion(&self) -> (r: Option<&str>)
        ensures
            r matches Some(t) && t@ == self.text(),
    {
        Some(self.0.as_str())
    }
}

/// The commands among `cmds` that `line` starts but is not.
pub open spec fn extensions(cmds: Seq<Seq<char>>, line: Seq<char>) -> Seq<Seq<char>>
    decreases cmds.len(),
{
    if cmds.len() == 0 {
        Seq::empty()
    } else {
        let r = extensions(cmds.drop_last(), line);
        let c = cmds.last();
        if line.is_prefix_of(c) && c != line {
            r.push(c)
        } else {
            r
        }
    }
}

/// The hint for `line` with the cursor at byte `pos`: only with the cursor
/// at the end of a slash word without spaces that exactly one known command
/// extends; the hint is the rest of that command.
pub open spec fn hint_of(line: Seq<char>, pos: int) -> Option<Seq<char>> {
    if line.len() == 0 || pos < encode_utf8(line).len() {
        None
    } else if !line.contains(' ') && line[0] == '/' {
        let m = extensions(known_commands(), line);
        if m.len() == 1 {
            Some(m[0].skip(line.len() as int))
        } else {
            None
        }
    } else {
        None
    }
}

impl McshHinter {
    /// The suggestion for `line` with the cursor at byte `pos`, if any.
    pub fn hint(&self, line: &str, pos: usize) -> (r: Option<CommandHint>)
        ensures
            match r {
                Some(h) => hint_of(line@, pos as int) == Some(h.text()),
                None => hint_of(line@, pos as int) is None,
            },
    {
        if line.is_empty() || before_end(line, pos) {
            return None;
        }
        if contains_char(line, ' ') {
            return None;
        }
        let lc = chars_of(line);
        if lc[0] != '/' {
            return None;
        }
        let cmds = all_commands();
        let n = cmds.len();
        let mut count: usize = 0;
        let mut first: &str = "";
        let mut i: usize = 0;
        assert(known_commands().take(0) =~= Seq::<Seq<char>>::empty());
        while i < n
            invariant
                i <= n,
                n == cmds@.len(),
                str_views(cmds@) == known_commands(),
                count == extensions(known_commands().take(i as int), line@).len(),
                count <= i,
                count > 0 ==> first@ == extensions(known_commands().take(i as int), line@)[0],
            decreases n - i,
        {
            let c = cmds[i];
            proof {
                assert(known_commands().take(i + 1).drop_last() =~= known_commands().take(i as int));
                assert(known_commands().take(i + 1).last() == c@);
            }
            if starts_with_str(c, line) && !text_eq(c, line) {
                if count == 0 {
                    first = c;
                }
                count += 1;
            }
            i += 1;
        }
        assert(known_commands().take(n as int) =~= known_commands());
        if count != 1 {
            return None;
        }
        let fc = chars_of(first);
        proof {
            lemma_extensions(known_commands(), line@);
            let m = extensions(known_commands(), line@);
            assert(m[0] == first@);
        }
        let rest = string_of(&fc, lc.len(), fc.len());
        assert(rest@ =~= first@.skip(line@.len() as int));
        Some(CommandHint(rest))
    }
}

/// Every element of `extensions(cmds, line)` is a command of `cmds` that
/// `line` starts but is not.
pub proof fn lemma_extensions(cmds: Seq<Seq<char>>, line: Seq<char>)
    ensures
        forall|i: int|
            0 <= i < extensions(cmds, line).len() ==> {
                let c = #[trigger] extensions(cmds, line)[i];
                &&& cmds.contains(c)
                &&& line.is_prefix_of(c)
                &&& c != line
            },
        forall|j: int|
            0 <= j < cmds.len() && line.is_prefix_of(#[trigger] cmds[j]) && cmds[j] != line
                ==> extensions(cmds, line).contains(cmds[j]),
    decreases cmds.len(),
{
    if cmds.len() > 0 {
        let t = cmds.drop_last();
        lemma_extensions(t, line);
        let r = extensions(t, line);
        assert forall|i: int| 0 <= i < extensions(cmds, line).len() implies {
            let c = #[trigger] extensions(cmds, line)[i];
            &&& cmds.contains(c)
            &&& line.is_prefix_of(c)
            &&& c != line
        } by {
            if i < r.len() {
                assert(extensions(cmds, line)[i] == r[i]);
                let k = choose|k: int| 0 <= k < t.len() && t[k] == r[i];
                assert(cmds[k] == r[i]);
            } else {
                assert(cmds[cmds.len() - 1] == cmds.last());
            }
        }
        assert forall|j: int|
            0 <= j < cmds.len() && line.is_prefix_of(#[trigger] cmds[j]) && cmds[j] != line
                implies extensions(cmds, line).contains(cmds[j]) by {
            if j < cmds.len() - 1 {
                assert(t[j] == cmds[j]);
                let k = choose|k: int| 0 <= k < r.len() && r[k] == t[j];
                assert(extensions(cmds, line)[k] == r[k]);
            } else {
                let e = extensions(cmds, line);
                assert(e[e.len() - 1] == cmds[j]);
            }
        }
    }
}

/// A hint completes the line to a known command: the line followed by the
/// hint is a known command, and it is the only known command the line
/// starts but is not.
pub proof fn law_hint_completes_unique_command(line: Seq<char>, pos: int)
    requires
        hint_of(line, pos) is Some,
    ensures
        known_commands().contains(line + hint_of(line, pos)->0),
        forall|c: Seq<char>|
            known_commands().contains(c) && line.is_prefix_of(c) && c != line ==> c == line + hint_of(line, pos)->0,
{
    let m = extensions(known_commands(), line);
    lemma_extensions(known_commands(), line);
    let c0 = m[0];
    assert(line + c0.skip(line.len() as int) =~= c0);
    assert forall|c: Seq<char>|
        known_commands().contains(c) && line.is_prefix_of(c) && c != line implies c == line
            + hint_of(line, pos)->0 by {
        let j = choose|j: int| 0 <= j < known_commands().len() && known_commands()[j] == c;
        assert(m.contains(known_commands()[j]));
        let k = choose|k: int| 0 <= k < m.len() && m[k] == c;
        assert(k == 0);
    }
}

} // verus!
