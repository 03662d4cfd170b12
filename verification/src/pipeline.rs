//! Pipelines of raw commands: `/cat f.txt | /grep hi | /wc -l`.
//!
//! Each stage is one program with its arguments; the output of a stage is
//! the input of the next one, the first stage reads the terminal and the
//! last one writes to it.

use vstd::prelude::*;

use crate::text::{
    chars_of, concat4, count_char, is_ws, lemma_split_on_pieces, lemma_trim_chars,
    lemma_words_chars, split_char, split_on, split_words, string_of, trim, trim_str, views, words,
};

verus! {

/// One stage of a pipeline: a program and its arguments.
pub struct Stage {
    pub program: String,
    pub args: Vec<String>,
}

impl View for Stage {
    type V = (Seq<char>, Seq<Seq<char>>);

    open spec fn view(&self) -> (Seq<char>, Seq<Seq<char>>) {
        (self.program@, views(self.args@))
    }
}

/// The views of a sequence of stages.
pub open spec fn stage_views(v: Seq<Stage>) -> Seq<(Seq<char>, Seq<Seq<char>>)> {
    v.map_values(|s: Stage| s@)
}

/// Why a pipeline was refused.
#[derive(Clone, Copy, Debug, PartialEq, Eq, Structural)]
pub enum PipelineError {
    /// Some stage holds no command (`/a | | /b`, `/a |`, `/ | /b`).
    EmptyStage,
}

impl PipelineError {
    /// The message shown for this error.
    pub fn message(&self) -> (r: &'static str)
        ensures
            r@ == "Invalid pipeline: empty command between pipes"@,
    {
        "Invalid pipeline: empty command between pipes"
    }
}

/// `p` without one leading `/`.
pub open spec fn strip_slash(p: Seq<char>) -> Seq<char> {
    if p.len() > 0 && p[0] == '/' {
        p.drop_first()
    } else {
        p
    }
}

/// The words of one piece between pipes: trimmed, without its slash, split
/// at whitespace.
pub open spec fn piece_words(piece: Seq<char>) -> Seq<Seq<char>> {
    words(strip_slash(trim(piece)))
}

/// The stage a piece stands for: its first word is the program, the other
/// words are the arguments.
pub open spec fn stage_of(piece: Seq<char>) -> (Seq<char>, Seq<Seq<char>>) {
    let w = piece_words(piece);
    (w[0], w.drop_first())
}

/// Whether some piece of the line, trimmed, is empty or holds no command.
pub open spec fn has_empty_stage(line: Seq<char>) -> bool {
    exists|i: int|
        0 <= i < split_on(line, '|').len() && #[trigger] piece_words(split_on(line, '|')[i]).len()
            == 0
}

/// The stages of a pipeline line, when every piece holds a command.
pub open spec fn stages_of(line: Seq<char>) -> Seq<(Seq<char>, Seq<Seq<char>>)> {
    split_on(line, '|').map_values(|p: Seq<char>| stage_of(p))
}

/// The stage that one piece of a pipeline line stands for, if it holds a command.
fn parse_stage(piece: &str) -> (r: Option<Stage>)
    ensures
        match r {
            Some(st) => piece_words(piece@).len() > 0 && st@ == stage_of(piece@),
            None => piece_words(piece@).len() == 0,
        },
{
    let t = trim_str(piece);
    let tc = chars_of(t.as_str());
    let stripped = if tc.len() > 0 && tc[0] == '/' {
        string_of(&tc, 1, tc.len())
    } else {
        string_of(&tc, 0, tc.len())
    };
    assert(stripped@ =~= strip_slash(trim(piece@)));
    let mut w = split_words(stripped.as_str());
    if w.len() == 0 {
        return None;
    }
    let program = w.remove(0);
    let st = Stage { program, args: w };
    assert(views(st.args@) =~= piece_words(piece@).drop_first());
    Some(st)
}

/// Reads a pipeline line: the pieces between `|`, each trimmed, without a
/// leading `/`, split into a program and its arguments.
pub fn parse_pipeline(line: &str) -> (r: Result<Vec<Stage>, PipelineError>)
    ensures
        match r {
            Ok(stages) => !has_empty_stage(line@) && stage_views(stages@) == stages_of(line@),
            Err(e) => has_empty_stage(line@) && e == PipelineError::EmptyStage,
        },
{
    let pieces = split_char(line, '|');
    let ghost ps = split_on(line@, '|');
    let n = pieces.len();
    let mut stages: Vec<Stage> = Vec::new();
    let mut i: usize = 0;
    while i < n
        invariant
            i <= n,
            n == pieces@.len(),
            views(pieces@) == ps,
            ps == split_on(line@, '|'),
            stages@.len() == i,
            forall|j: int| 0 <= j < i ==> piece_words(#[trigger] ps[j]).len() > 0,
            forall|j: int| 0 <= j < i ==> #[trigger] stages@[j]@ == stage_of(ps[j]),
        decreases n - i,
    {
        assert(pieces@[i as int]@ == ps[i as int]);
        match parse_stage(pieces[i].as_str()) {
            Some(st) => {
                stages.push(st);
            },
            None => {
                assert(piece_words(ps[i as int]).len() == 0);
                return Err(PipelineError::EmptyStage);
            },
        }
        i += 1;
    }
    assert(stage_views(stages@) =~= stages_of(line@));
    Ok(stages)
}

/// How one stage of an `n`-stage pipeline is wired.
#[derive(Clone, Copy, Debug, PartialEq, Eq, Structural)]
pub struct Wiring {
    /// The stage reads the previous stage's output (else the terminal).
    pub stdin_from_previous: bool,
    /// The stage's output goes to the next stage (else to the terminal).
    pub stdout_to_next: bool,
}

/// How stage `i` of an `n`-stage pipeline is wired: the first stage reads
/// the terminal, the last one writes to it, and every other connection is a
/// pipe between neighbours.
pub fn stage_wiring(i: usize, n: usize) -> (r: Wiring)
    requires
        i < n,
    ensures
        r.stdin_from_previous == (i > 0),
        r.stdout_to_next == (i + 1 < n),
{
    Wiring { stdin_from_previous: i > 0, stdout_to_next: i + 1 < n }
}

/// What to do next while starting the stages of a pipeline.
#[derive(Clone, Copy, Debug, PartialEq, Eq, Structural)]
pub enum Launch {
    /// Start stage `stage`, wired as given.
    Start { stage: usize, wiring: Wiring },
    /// Every stage has started: wait for all of them, first to last.
    WaitAll,
    /// Stage `stage` could not start: stop the stages started before it
    /// (`0` to `stage - 1`) and report the failure of `stage`.
    Abandon { stage: usize },
}

/// The next step in starting an `n`-stage pipeline of which the first
/// `started` stages are running, `failed` telling whether the next one just
/// failed to start: stages start in order, each wired by `stage_wiring`; once
/// all run they are waited for; a stage that fails to start abandons the
/// pipeline.
pub fn launch_step(n: usize, started: usize, failed: bool) -> (r: Launch)
    requires
        started <= n,
        failed ==> started < n,
    ensures
        failed ==> r == (Launch::Abandon { stage: started }),
        !failed && started < n ==> r == (Launch::Start {
            stage: started,
            wiring: Wiring { stdin_from_previous: started > 0, stdout_to_next: started + 1 < n },
        }),
        !failed && started == n ==> r == Launch::WaitAll,
{
    if failed {
        Launch::Abandon { stage: started }
    } else if started < n {
        Launch::Start { stage: started, wiring: stage_wiring(started, n) }
    } else {
        Launch::WaitAll
    }
}

/// The message shown when a stage could not be started: the pipeline
/// failed, naming the stage's program and the reason.
pub fn stage_failure_message(program: &str, reason: &str) -> (r: String)
    ensures
        r@ == "Pipeline failed: '/"@ + program@ + "' — "@ + reason@,
{
    concat4("Pipeline failed: '/", program, "' — ", reason)
}

/// `w` can stand as a program or an argument: it is not empty and holds
/// neither whitespace nor `|`.
pub open spec fn is_word(w: Seq<char>) -> bool {
    &&& w.len() > 0
    &&& forall|k: int| 0 <= k < w.len() ==> !is_ws(#[trigger] w[k]) && w[k] != '|'
}

/// Each word of a piece between pipes is a proper word.
proof fn lemma_piece_words(piece: Seq<char>)
    requires
        !piece.contains('|'),
    ensures
        forall|i: int| 0 <= i < piece_words(piece).len() ==> is_word(#[trigger] piece_words(piece)[i]),
{
    let t = trim(piece);
    let u = strip_slash(t);
    lemma_trim_chars(piece);
    lemma_words_chars(u);
    assert forall|x: char| u.contains(x) implies piece.contains(x) by {
        let k = choose|k: int| 0 <= k < u.len() && u[k] == x;
        if t.len() > 0 && t[0] == '/' {
            assert(t[k + 1] == x);
            assert(t.contains(t[k + 1]));
        } else {
            assert(t.contains(t[k]));
        }
    }
    assert forall|i: int| 0 <= i < piece_words(piece).len() implies is_word(#[trigger] piece_words(piece)[i]) by {
        let w = piece_words(piece)[i];
        assert forall|k: int| 0 <= k < w.len() implies !is_ws(#[trigger] w[k]) && w[k] != '|' by {
            assert(u.contains(words(u)[i][k]));
        }
    }
}

/// A pipeline has one stage more than it has pipes, and every program and
/// every argument of its stages is a non-empty word without whitespace or `|`.
pub proof fn law_pipeline_stages(line: Seq<char>)
    requires
        !has_empty_stage(line),
    ensures
        stages_of(line).len() == count_char(line, '|') + 1,
        forall|i: int| 0 <= i < stages_of(line).len() ==> is_word(#[trigger] stages_of(line)[i].0),
        forall|i: int, j: int|
            0 <= i < stages_of(line).len() && 0 <= j < stages_of(line)[i].1.len() ==> is_word(
                #[trigger] stages_of(line)[i].1[j],
            ),
{
    let ps = split_on(line, '|');
    lemma_split_on_pieces(line, '|');
    assert forall|i: int| 0 <= i < stages_of(line).len() implies is_word(#[trigger] stages_of(line)[i].0) by {
        lemma_piece_words(ps[i]);
        assert(piece_words(ps[i]).len() > 0);
    }
    assert forall|i: int, j: int|
        0 <= i < stages_of(line).len() && 0 <= j < stages_of(line)[i].1.len() implies is_word(
            #[trigger] stages_of(line)[i].1[j],
        ) by {
        lemma_piece_words(ps[i]);
        assert(piece_words(ps[i]).len() > 0);
        assert(stages_of(line)[i].1[j] == piece_words(ps[i])[j + 1]);
    }
}

/// Each stage is its piece, word for word: the program followed by the
/// arguments is exactly the whitespace-separated words of the piece between
/// pipes (trimmed, without its slash), so the arguments are every word after
/// the first and number one less than the words.
pub proof fn law_stage_words(line: Seq<char>)
    requires
        !has_empty_stage(line),
    ensures
        stages_of(line).len() == split_on(line, '|').len(),
        forall|i: int|
            0 <= i < stages_of(line).len() ==> seq![#[trigger] stages_of(line)[i].0] + stages_of(
                line,
            )[i].1 == words(strip_slash(trim(split_on(line, '|')[i]))),
        forall|i: int|
            0 <= i < stages_of(line).len() ==> #[trigger] stages_of(line)[i].1.len() + 1 == words(
                strip_slash(trim(split_on(line, '|')[i])),
            ).len(),
{
    let ps = split_on(line, '|');
    assert forall|i: int| 0 <= i < stages_of(line).len() implies seq![
        #[trigger] stages_of(line)[i].0,
    ] + stages_of(line)[i].1 == words(strip_slash(trim(ps[i]))) by {
        let w = words(strip_slash(trim(ps[i])));
        assert(piece_words(ps[i]).len() > 0);
        assert(seq![w[0]] + w.drop_first() =~= w);
    }
    assert forall|i: int| 0 <= i < stages_of(line).len() implies #[trigger] stages_of(line)[i].1.len()
        + 1 == words(strip_slash(trim(ps[i]))).len() by {
        assert(piece_words(ps[i]).len() > 0);
    }
}

} // verus!
