//! Tab completion: slash commands while the first word is typed, file and
//! directory names for the arguments after it.
//!
//! Positions are byte offsets into the line, as the line editor gives them.

use rustyline::completion::FilenameCompleter;
use vstd::prelude::*;
use vstd::string::StringSliceAdditionalSpecFns;
use vstd::utf8::{
    decode_utf8, decode_utf8_encode_utf8, decode_utf8_split, encode_utf8, encode_utf8_first_scalar,
    encode_utf8_valid_utf8, is_char_boundary, is_char_boundary_start_end_of_seq, pop_first_scalar,
    valid_utf8_split,
};

use crate::commands::{
    all_commands, known_commands, lemma_commands_ascii_lower, lemma_commands_prefix_free, str_views,
};
use crate::hinter::{extensions, hint_of, lemma_extensions};
use crate::listing::{sort_entries, sorted_entries, Entry};
use crate::text::{
    chars_of, concat2, find_last, is_ascii_lower, last_index_of, lemma_encode_concat,
    lemma_last_index, lower_text, opt_view, starts_with_str, string_of, to_lowercase,
};

verus! {

broadcast use vstd::utf8::encode_utf8_decode_utf8;

/// rustyline's completer of file names.
#[verifier::external_type_specification]
#[verifier::external_body]
pub struct ExFilenameCompleter(FilenameCompleter);

/// Calls `FilenameCompleter::new` (rustyline). The completer is opaque here:
/// nothing is claimed of it.
#[verifier::external_body]
fn new_filename_completer() -> FilenameCompleter {
    FilenameCompleter::new()
}

/// The shell's completer.
pub struct McshCompleter {
    _file_completer: FilenameCompleter,
}

/// One completion: what the list shows and what goes into the line.
pub struct Candidate {
    pub display: String,
    pub replacement: String,
}

impl View for Candidate {
    type V = (Seq<char>, Seq<char>);

    open spec fn view(&self) -> (Seq<char>, Seq<char>) {
        (self.display@, self.replacement@)
    }
}

/// The views of a sequence of candidates.
pub open spec fn candidate_views(v: Seq<Candidate>) -> Seq<(Seq<char>, Seq<char>)> {
    v.map_values(|c: Candidate| c@)
}

/// What to complete at the cursor.
pub enum CompletionPlan {
    /// The completion is known: replace the line from byte `start` by one of
    /// the candidates.
    Ready { start: usize, candidates: Vec<Candidate> },
    /// Complete a file name: list the directory `dir` (the working directory
    /// when `None`) and pass its entries to `file_candidates`; the
    /// replacement starts at byte `start`.
    Files { start: usize, dir: Option<String>, prefix: String },
}

/// The mathematical form of a `CompletionPlan`.
pub enum CompletionView {
    Ready(int, Seq<(Seq<char>, Seq<char>)>),
    Files(int, Option<Seq<char>>, Seq<char>),
}

impl View for CompletionPlan {
    type V = CompletionView;

    open spec fn view(&self) -> CompletionView {
        match self {
            CompletionPlan::Ready { start, candidates } => CompletionView::Ready(
                *start as int,
                candidate_views(candidates@),
            ),
            CompletionPlan::Files { start, dir, prefix } => CompletionView::Files(
                *start as int,
                opt_view(*dir),
                prefix@,
            ),
        }
    }
}

/// The characters of `line` before byte `pos`.
pub open spec fn chars_before(line: Seq<char>, pos: int) -> Seq<char> {
    decode_utf8(encode_utf8(line).subrange(0, pos))
}

/// The completions of a command word: each known command that starts with
/// `prefix`, shown as itself and inserted with a space after it.
pub open spec fn command_candidates(cmds: Seq<Seq<char>>, prefix: Seq<char>) -> Seq<
    (Seq<char>, Seq<char>),
>
    decreases cmds.len(),
{
    if cmds.len() == 0 {
        Seq::empty()
    } else {
        let r = command_candidates(cmds.drop_last(), prefix);
        let c = cmds.last();
        if prefix.is_prefix_of(c) {
            r.push((c, c.push(' ')))
        } else {
            r
        }
    }
}

/// What to complete in `line` with the cursor at byte `pos`.
pub open spec fn completion_of(line: Seq<char>, pos: int) -> CompletionView {
    let up = chars_before(line, pos);
    if !up.contains(' ') {
        if up.len() > 0 && up[0] == '/' {
            CompletionView::Ready(0, command_candidates(known_commands(), lower_text(up)))
        } else {
            CompletionView::Ready(pos, Seq::empty())
        }
    } else {
        let k = last_index_of(up, ' ');
        let start = encode_utf8(up.take(k + 1)).len() as int;
        let arg = up.skip(k + 1);
        let slash = last_index_of(arg, '/');
        if slash < 0 {
            CompletionView::Files(start, None, arg)
        } else {
            CompletionView::Files(start, Some(arg.take(slash + 1)), arg.skip(slash + 1))
        }
    }
}

/// The completion of one directory entry: its name, and the text that
/// replaces the argument (the directory part, the name, and `/` for a directory).
pub open spec fn file_candidate(dir: Option<Seq<char>>, e: Entry) -> (Seq<char>, Seq<char>) {
    let tail = if e.is_dir {
        e.name@.push('/')
    } else {
        e.name@
    };
    match dir {
        None => (e.name@, tail),
        Some(d) => (e.name@, d + tail),
    }
}

/// The completions among `s` (in order): the entries whose name starts with `prefix`.
pub open spec fn file_candidates_of(dir: Option<Seq<char>>, prefix: Seq<char>, s: Seq<Entry>) -> Seq<
    (Seq<char>, Seq<char>),
>
    decreases s.len(),
{
    if s.len() == 0 {
        Seq::empty()
    } else {
        let r = file_candidates_of(dir, prefix, s.drop_last());
        if prefix.is_prefix_of(s.last().name@) {
            r.push(file_candidate(dir, s.last()))
        } else {
            r
        }
    }
}

/// Where the replacement of a completion plan starts.
pub open spec fn completion_start(c: CompletionView) -> int {
    match c {
        CompletionView::Ready(start, _) => start,
        CompletionView::Files(start, _, _) => start,
    }
}

/// The end of the encoding of `a` is a character boundary of the encoding
/// of `a + b`.
proof fn lemma_boundary_after(a: Seq<char>, b: Seq<char>)
    ensures
        is_char_boundary(encode_utf8(a + b), encode_utf8(a).len() as int),
    decreases a.len(),
{
    broadcast use encode_utf8_valid_utf8;

    let s = a + b;
    if a.len() > 0 {
        lemma_boundary_after(a.drop_first(), b);
        encode_utf8_first_scalar(s);
        assert(s.drop_first() =~= a.drop_first() + b);
        assert(s[0] == a[0]);
        assert(pop_first_scalar(encode_utf8(s)) =~= encode_utf8(s.drop_first()));
        lemma_encode_concat(a, b);
    }
}

/// Completion replaces text that ends at the cursor: on every line and every
/// cursor position at a character boundary, the replacement starts at or
/// before the cursor, itself at a character boundary.
pub proof fn law_completion_starts_at_a_boundary(line: Seq<char>, pos: int)
    requires
        0 <= pos <= encode_utf8(line).len(),
        is_char_boundary(encode_utf8(line), pos),
    ensures
        0 <= completion_start(completion_of(line, pos)) <= pos,
        is_char_boundary(encode_utf8(line), completion_start(completion_of(line, pos))),
{
    broadcast use encode_utf8_valid_utf8;

    let bytes = encode_utf8(line);
    let prefix = bytes.subrange(0, pos);
    let suffix = bytes.subrange(pos, bytes.len() as int);
    valid_utf8_split(bytes, pos);
    decode_utf8_split(bytes, pos);
    decode_utf8_encode_utf8(prefix);
    is_char_boundary_start_end_of_seq(bytes);
    let up = chars_before(line, pos);
    assert(encode_utf8(up) == prefix);
    assert(line == up + decode_utf8(suffix));
    if up.contains(' ') {
        lemma_last_index(up, ' ');
        let k = last_index_of(up, ' ');
        let head = up.take(k + 1);
        let tail = up.skip(k + 1);
        assert(up =~= head + tail);
        lemma_encode_concat(head, tail);
        assert(line =~= head + (tail + decode_utf8(suffix)));
        lemma_boundary_after(head, tail + decode_utf8(suffix));
    }
}

/// Where no command of `cmds` is `p` itself, the command completions of `p`
/// are its extensions, each inserted with a space after it.
proof fn lemma_candidates_are_extensions(cmds: Seq<Seq<char>>, p: Seq<char>)
    requires
        !cmds.contains(p),
    ensures
        command_candidates(cmds, p) == extensions(cmds, p).map_values(
            |c: Seq<char>| (c, c.push(' ')),
        ),
    decreases cmds.len(),
{
    if cmds.len() > 0 {
        let t = cmds.drop_last();
        assert(!t.contains(p)) by {
            if t.contains(p) {
                let k = choose|k: int| 0 <= k < t.len() && t[k] == p;
                assert(cmds[k] == p);
            }
        }
        assert(cmds[cmds.len() - 1] == cmds.last());
        lemma_candidates_are_extensions(t, p);
        let f = |c: Seq<char>| (c, c.push(' '));
        let e = extensions(t, p);
        assert(e.push(cmds.last()).map_values(f) =~= e.map_values(f).push(f(cmds.last())));
    }
}

/// Tab completes what the hint shows: with the cursor at the end of a line
/// that has a hint, completion replaces the whole line by the line followed
/// by the hint, as the only candidate, with a space after it.
pub proof fn law_hint_is_the_completion(line: Seq<char>)
    requires
        hint_of(line, encode_utf8(line).len() as int) is Some,
    ensures
        ({
            let full = line + hint_of(line, encode_utf8(line).len() as int)->0;
            completion_of(line, encode_utf8(line).len() as int) == CompletionView::Ready(
                0,
                seq![(full, full.push(' '))],
            )
        }),
{
    let pos = encode_utf8(line).len() as int;
    let bytes = encode_utf8(line);
    assert(bytes.subrange(0, pos) =~= bytes);
    assert(chars_before(line, pos) == line);
    let k = known_commands();
    let m = extensions(k, line);
    lemma_extensions(k, line);
    lemma_commands_prefix_free();
    lemma_commands_ascii_lower();
    assert(m.len() == 1);
    assert(is_ascii_lower(line)) by {
        let c = m[0];
        let j = choose|j: int| 0 <= j < k.len() && k[j] == c;
        assert(is_ascii_lower(k[j]));
        assert forall|i: int| 0 <= i < line.len() implies (#[trigger] line[i] as u32) < 0x80 && !(
        'A' <= line[i] <= 'Z') by {
            assert(line[i] == c[i]);
        }
    }
    assert(!k.contains(line)) by {
        if k.contains(line) {
            let i = choose|i: int| 0 <= i < k.len() && k[i] == line;
            let c = m[0];
            let j = choose|j: int| 0 <= j < k.len() && k[j] == c;
            assert(k[i].is_prefix_of(k[j]));
        }
    }
    lemma_candidates_are_extensions(k, line);
    let c0 = m[0];
    assert(line + c0.skip(line.len() as int) =~= c0);
    assert(m =~= seq![c0]);
    assert(m.map_values(|c: Seq<char>| (c, c.push(' '))) =~= seq![(c0, c0.push(' '))]);
}

impl McshCompleter {
    /// A completer.
    pub fn new() -> Self {
        McshCompleter { _file_completer: new_filename_completer() }
    }

    /// What to complete in `line` with the cursor at byte `pos`.
    pub fn plan(&self, line: &str, pos: usize) -> (r: CompletionPlan)
        requires
            pos <= line.spec_bytes().len(),
            is_char_boundary(line.spec_bytes(), pos as int),
        ensures
            r@ == completion_of(line@, pos as int),
    {
        let (up_str, _) = line.split_at(pos);
        assert(up_str@ == chars_before(line@, pos as int)) by {
            assert(encode_utf8(up_str@) =~= encode_utf8(line@).subrange(0, pos as int));
        }
        let up = chars_of(up_str);
        let space = find_last(&up, ' ');
        proof {
            lemma_last_index(up@, ' ');
        }
        match space {
            None => {
                if up.len() > 0 && up[0] == '/' {
                    let prefix = to_lowercase(up_str);
                    let candidates = command_completions(prefix.as_str());
                    CompletionPlan::Ready { start: 0, candidates }
                } else {
                    let none: Vec<Candidate> = Vec::new();
                    assert(candidate_views(none@) =~= Seq::empty());
                    CompletionPlan::Ready { start: pos, candidates: none }
                }
            },
            Some(k) => {
                let head = string_of(&up, 0, k + 1);
                assert(head@ =~= up@.take(k + 1));
                proof {
                    assert(up@ =~= up@.take(k + 1) + up@.skip(k + 1));
                    lemma_encode_concat(up@.take(k + 1), up@.skip(k + 1));
                    assert(encode_utf8(up_str@) =~= encode_utf8(line@).subrange(0, pos as int));
                }
                let start = head.as_str().len();
                let arg = string_of(&up, k + 1, up.len());
                let argc = chars_of(arg.as_str());
                assert(arg@ =~= up@.skip(k + 1));
                match find_last(&argc, '/') {
                    None => CompletionPlan::Files { start, dir: None, prefix: arg },
                    Some(s) => {
                        let dir = string_of(&argc, 0, s + 1);
                        let prefix = string_of(&argc, s + 1, argc.len());
                        assert(dir@ =~= arg@.take(s + 1));
                        assert(prefix@ =~= arg@.skip(s + 1));
                        CompletionPlan::Files { start, dir: Some(dir), prefix }
                    },
                }
            },
        }
    }

    /// The completions of a file name among the entries of the listed
    /// directory: entries in name order whose name starts with `prefix`.
    pub fn file_candidates(&self, dir: &Option<String>, prefix: &str, entries: Vec<Entry>) -> (r:
        Vec<Candidate>)
        ensures
            candidate_views(r@) == file_candidates_of(opt_view(*dir), prefix@, sorted_entries(entries@)),
    {
        let sorted = sort_entries(entries);
        let n = sorted.len();
        let mut r: Vec<Candidate> = Vec::new();
        let mut i: usize = 0;
        assert(sorted@.take(0) =~= Seq::<Entry>::empty());
        while i < n
            invariant
                i <= n,
                n == sorted@.len(),
                candidate_views(r@) == file_candidates_of(opt_view(*dir), prefix@, sorted@.take(i as int)),
            decreases n - i,
        {
            let e = &sorted[i];
            proof {
                assert(sorted@.take(i + 1).drop_last() =~= sorted@.take(i as int));
                assert(sorted@.take(i + 1).last() == *e);
            }
            if starts_with_str(e.name.as_str(), prefix) {
                let name = e.name.as_str();
                let tail = if e.is_dir {
                    let t = concat2(name, "/");
                    proof {
                        reveal_strlit("/");
                        assert(t@ =~= e.name@.push('/'));
                    }
                    t
                } else {
                    name.to_owned()
                };
                assert(tail@ == file_candidate(None, *e).1);
                let replacement = match dir {
                    None => tail,
                    Some(d) => concat2(d.as_str(), tail.as_str()),
                };
                r.push(Candidate { display: name.to_owned(), replacement });
                assert(candidate_views(r@) =~= file_candidates_of(
                    opt_view(*dir),
                    prefix@,
                    sorted@.take(i + 1),
                ));
            } else {
                assert(candidate_views(r@) =~= file_candidates_of(
                    opt_view(*dir),
                    prefix@,
                    sorted@.take(i + 1),
                ));
            }
            i += 1;
        }
        assert(sorted@.take(n as int) =~= sorted@);
        r
    }
}

/// The completions of a command word starting with `prefix`.
pub fn command_completions(prefix: &str) -> (r: Vec<Candidate>)
    ensures
        candidate_views(r@) == command_candidates(known_commands(), prefix@),
{
    let cmds = all_commands();
    let n = cmds.len();
    let mut r: Vec<Candidate> = Vec::new();
    let mut i: usize = 0;
    assert(known_commands().take(0) =~= Seq::<Seq<char>>::empty());
    while i < n
        invariant
            i <= n,
            n == cmds@.len(),
            str_views(cmds@) == known_commands(),
            candidate_views(r@) == command_candidates(known_commands().take(i as int), prefix@),
        decreases n - i,
    {
        let c = cmds[i];
        proof {
            assert(known_commands().take(i + 1).drop_last() =~= known_commands().take(i as int));
            assert(known_commands().take(i + 1).last() == c@);
        }
        if starts_with_str(c, prefix) {
            let replacement = concat2(c, " ");
            proof {
                reveal_strlit(" ");
                assert(replacement@ =~= c@.push(' '));
            }
            r.push(Candidate { display: c.to_owned(), replacement });
        }
        assert(candidate_views(r@) =~= command_candidates(known_commands().take(i + 1), prefix@));
        i += 1;
    }
    assert(known_commands().take(n as int) =~= known_commands());
    r
}

/// Command completions only offer known commands that start with what was
/// typed, each followed by a space, and they offer every such command.
pub proof fn law_command_candidates(cmds: Seq<Seq<char>>, prefix: Seq<char>)
    ensures
        forall|i: int|
            0 <= i < command_candidates(cmds, prefix).len() ==> {
                let (d, rep) = #[trigger] command_candidates(cmds, prefix)[i];
                &&& prefix.is_prefix_of(d)
                &&& cmds.contains(d)
                &&& rep == d.push(' ')
            },
        forall|j: int|
            0 <= j < cmds.len() && prefix.is_prefix_of(#[trigger] cmds[j]) ==> exists|i: int|
                0 <= i < command_candidates(cmds, prefix).len() && command_candidates(cmds, prefix)[i].0
                    == cmds[j],
    decreases cmds.len(),
{
    if cmds.len() > 0 {
        let t = cmds.drop_last();
        law_command_candidates(t, prefix);
        let r = command_candidates(t, prefix);
        assert forall|i: int|
            0 <= i < command_candidates(cmds, prefix).len() implies {
                let (d, rep) = #[trigger] command_candidates(cmds, prefix)[i];
                &&& prefix.is_prefix_of(d)
                &&& cmds.contains(d)
                &&& rep == d.push(' ')
            } by {
            if i < r.len() {
                assert(command_candidates(cmds, prefix)[i] == r[i]);
                let d = r[i].0;
                let k = choose|k: int| 0 <= k < t.len() && t[k] == d;
                assert(cmds[k] == d);
            } else {
                assert(cmds[cmds.len() - 1] == cmds.last());
            }
        }
        assert forall|j: int|
            0 <= j < cmds.len() && prefix.is_prefix_of(#[trigger] cmds[j]) implies exists|i: int|
                0 <= i < command_candidates(cmds, prefix).len() && command_candidates(cmds, prefix)[i].0
                    == cmds[j] by {
            if j < cmds.len() - 1 {
                assert(t[j] == cmds[j]);
                let i = choose|i: int| 0 <= i < r.len() && r[i].0 == t[j];
                assert(command_candidates(cmds, prefix)[i] == r[i]);
            } else {
                assert(command_candidates(cmds, prefix)[r.len() as int].0 == cmds[j]);
            }
        }
    }
}

/// The text a file completion puts before the entry's name.
pub open spec fn dir_part(dir: Option<Seq<char>>) -> Seq<char> {
    match dir {
        None => Seq::empty(),
        Some(d) => d,
    }
}

/// File completions only offer names that start with what was typed, never
/// more than there are entries; the replacement is the directory part and
/// the name, followed by `/` when the entry is a directory.
pub proof fn law_file_candidates(dir: Option<Seq<char>>, prefix: Seq<char>, s: Seq<Entry>)
    ensures
        file_candidates_of(dir, prefix, s).len() <= s.len(),
        forall|i: int|
            0 <= i < file_candidates_of(dir, prefix, s).len() ==> {
                let (d, rep) = #[trigger] file_candidates_of(dir, prefix, s)[i];
                &&& prefix.is_prefix_of(d)
                &&& (rep == dir_part(dir) + d || rep == dir_part(dir) + d.push('/'))
            },
    decreases s.len(),
{
    if s.len() > 0 {
        let t = s.drop_last();
        law_file_candidates(dir, prefix, t);
        let r = file_candidates_of(dir, prefix, t);
        assert forall|i: int|
            0 <= i < file_candidates_of(dir, prefix, s).len() implies {
                let (d, rep) = #[trigger] file_candidates_of(dir, prefix, s)[i];
                &&& prefix.is_prefix_of(d)
                &&& (rep == dir_part(dir) + d || rep == dir_part(dir) + d.push('/'))
            } by {
            if i < r.len() {
                assert(file_candidates_of(dir, prefix, s)[i] == r[i]);
            } else {
                let e = s.last();
                assert(file_candidates_of(dir, prefix, s)[i] == file_candidate(dir, e));
                if dir is None {
                    assert(e.name@ =~= Seq::<char>::empty() + e.name@);
                    assert(e.name@.push('/') =~= Seq::<char>::empty() + e.name@.push('/'));
                }
            }
        }
    }
}

/// The text that completes to `e` in the directory part `d`: the directory
/// part, the name, and `/` after the name of a directory.
pub open spec fn completed_entry(d: Seq<char>, e: Entry) -> Seq<char> {
    if e.is_dir {
        d + e.name@ + seq!['/']
    } else {
        d + e.name@
    }
}

/// File completion misses nothing: every entry (file or directory, in the
/// working directory or in a typed one) whose name starts with the prefix
/// is offered, shown by its name, and replaced by the directory part and the
/// name, with `/` after it for a directory; for a name that does not itself
/// end in `/` (as no file name does), the replacement ends in `/` exactly
/// when the entry is a directory.
pub proof fn law_file_candidates_complete(dir: Option<Seq<char>>, prefix: Seq<char>, s: Seq<Entry>)
    ensures
        forall|j: int|
            0 <= j < s.len() && prefix.is_prefix_of(#[trigger] s[j].name@) ==> exists|i: int|
                0 <= i < file_candidates_of(dir, prefix, s).len() && file_candidates_of(dir, prefix, s)[i]
                    == (s[j].name@, completed_entry(dir_part(dir), s[j])),
        forall|j: int|
            0 <= j < s.len() && prefix.is_prefix_of(#[trigger] s[j].name@) && s[j].name@.len() > 0
                && s[j].name@.last() != '/' ==> (completed_entry(
                dir_part(dir),
                s[j],
            ).last() == '/' <==> s[j].is_dir),
    decreases s.len(),
{
    assert forall|j: int|
        0 <= j < s.len() && prefix.is_prefix_of(#[trigger] s[j].name@) && s[j].name@.len() > 0
            && s[j].name@.last() != '/' implies (completed_entry(
            dir_part(dir),
            s[j],
        ).last() == '/' <==> s[j].is_dir) by {
        if !s[j].is_dir && completed_entry(dir_part(dir), s[j]).last() == '/' {
            assert(false);
        }
    }
    if s.len() > 0 {
        let t = s.drop_last();
        law_file_candidates_complete(dir, prefix, t);
        let r = file_candidates_of(dir, prefix, t);
        let e = s.last();
        assert(file_candidate(dir, e) == (e.name@, completed_entry(dir_part(dir), e))) by {
            if dir is None {
                assert(e.name@ =~= Seq::<char>::empty() + e.name@);
                assert(e.name@.push('/') =~= Seq::<char>::empty() + e.name@ + seq!['/']);
            } else {
                assert(dir_part(dir) + e.name@.push('/') =~= dir_part(dir) + e.name@ + seq!['/']);
            }
        }
        assert forall|j: int|
            0 <= j < s.len() && prefix.is_prefix_of(#[trigger] s[j].name@) implies exists|i: int|
                0 <= i < file_candidates_of(dir, prefix, s).len() && file_candidates_of(dir, prefix, s)[i]
                    == (s[j].name@, completed_entry(dir_part(dir), s[j])) by {
            if j < s.len() - 1 {
                assert(t[j] == s[j]);
                let i = choose|i: int|
                    0 <= i < r.len() && r[i] == (t[j].name@, completed_entry(dir_part(dir), t[j]));
                assert(file_candidates_of(dir, prefix, s)[i] == r[i]);
            } else {
                assert(s[j] == e);
                assert(file_candidates_of(dir, prefix, s)[r.len() as int] == file_candidate(dir, e));
            }
        }
    }
}

} // verus!
