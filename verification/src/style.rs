//! Terminal colours, rendered by the `colored` crate.
//!
//! colored decides by itself whether to colour at all (from the environment
//! and from whether stdout is a terminal), so each rendering below is stated
//! as one of two forms: the text unchanged, or the text between an SGR escape
//! and the reset escape.

use colored::Colorize;
use vstd::prelude::*;

use crate::text::has_substring;

verus! {

/// The escape that ends every colouring: ESC `[0m`.
pub open spec fn reset() -> Seq<char> {
    seq!['\x1b', '[', '0', 'm']
}

/// The escape that starts colouring with the SGR parameters `code`: ESC `[` code `m`.
pub open spec fn esc(code: Seq<char>) -> Seq<char> {
    seq!['\x1b', '['] + code + seq!['m']
}

/// `r` is what colored renders for `s` with the SGR parameters `code`:
/// `s` itself when colouring is off, else `s` wrapped in `esc(code)` and `reset()`.
/// When `s` already holds a reset escape colored re-applies the style after
/// it; that case is left open.
pub open spec fn styled(s: Seq<char>, code: Seq<char>, r: Seq<char>) -> bool {
    ||| has_substring(s, reset())
    ||| r == s
    ||| r == esc(code) + s + reset()
}

/// SGR parameters of green (`32`).
pub open spec fn green_code() -> Seq<char> {
    seq!['3', '2']
}

/// SGR parameters of bold green (`1;32`).
pub open spec fn green_bold_code() -> Seq<char> {
    seq!['1', ';', '3', '2']
}

/// SGR parameters of red (`31`).
pub open spec fn red_code() -> Seq<char> {
    seq!['3', '1']
}

/// SGR parameters of bold red (`1;31`).
pub open spec fn red_bold_code() -> Seq<char> {
    seq!['1', ';', '3', '1']
}

/// SGR parameters of white (`37`).
pub open spec fn white_code() -> Seq<char> {
    seq!['3', '7']
}

/// SGR parameters of bold white (`1;37`).
pub open spec fn white_bold_code() -> Seq<char> {
    seq!['1', ';', '3', '7']
}

/// SGR parameters of yellow (`33`).
pub open spec fn yellow_code() -> Seq<char> {
    seq!['3', '3']
}

/// SGR parameters of bold yellow (`1;33`).
pub open spec fn yellow_bold_code() -> Seq<char> {
    seq!['1', ';', '3', '3']
}

/// SGR parameters of bold cyan (`1;36`).
pub open spec fn cyan_bold_code() -> Seq<char> {
    seq!['1', ';', '3', '6']
}

/// SGR parameters of dimmed text (`2`).
pub open spec fn dimmed_code() -> Seq<char> {
    seq!['2']
}

/// SGR parameters of italic white (`3;37`).
pub open spec fn italic_white_code() -> Seq<char> {
    seq!['3', ';', '3', '7']
}

/// `s` followed by spaces up to `width` characters (how `{:width}` pads a string).
pub open spec fn pad_right(s: Seq<char>, width: nat) -> Seq<char> {
    if s.len() >= width {
        s
    } else {
        s + Seq::new((width - s.len()) as nat, |i: int| ' ')
    }
}

/// Calls colored's `green()` and renders the result (`to_string`).
/// Claimed: the text comes back unchanged or between the escape of these
/// SGR parameters and the reset escape (`styled`); which of the two depends
/// on whether colored colours at all, which it decides from the environment.
#[verifier::external_body]
pub(crate) fn green(s: &str) -> (r: String)
    ensures
        styled(s@, green_code(), r@),
{
    s.green().to_string()
}

/// Calls colored's `green().bold()` and renders the result (`to_string`).
/// Claimed: the text comes back unchanged or between the escape of these
/// SGR parameters and the reset escape (`styled`); which of the two depends
/// on whether colored colours at all, which it decides from the environment.
#[verifier::external_body]
pub(crate) fn green_bold(s: &str) -> (r: String)
    ensures
        styled(s@, green_bold_code(), r@),
{
    s.green().bold().to_string()
}

/// Calls colored's `red()` and renders the result (`to_string`).
/// Claimed: the text comes back unchanged or between the escape of these
/// SGR parameters and the reset escape (`styled`); which of the two depends
/// on whether colored colours at all, which it decides from the environment.
#[verifier::external_body]
pub(crate) fn red(s: &str) -> (r: String)
    ensures
        styled(s@, red_code(), r@),
{
    s.red().to_string()
}

/// Calls colored's `red().bold()` and renders the result (`to_string`).
/// Claimed: the text comes back unchanged or between the escape of these
/// SGR parameters and the reset escape (`styled`); which of the two depends
/// on whether colored colours at all, which it decides from the environment.
#[verifier::external_body]
pub(crate) fn red_bold(s: &str) -> (r: String)
    ensures
        styled(s@, red_bold_code(), r@),
{
    s.red().bold().to_string()
}

/// Calls colored's `white()` and renders the result (`to_string`).
/// Claimed: the text comes back unchanged or between the escape of these
/// SGR parameters and the reset escape (`styled`); which of the two depends
/// on whether colored colours at all, which it decides from the environment.
#[verifier::external_body]
pub(crate) fn white(s: &str) -> (r: String)
    ensures
        styled(s@, white_code(), r@),
{
    s.white().to_string()
}

/// Calls colored's `white().bold()` and renders the result (`to_string`).
/// Claimed: the text comes back unchanged or between the escape of these
/// SGR parameters and the reset escape (`styled`); which of the two depends
/// on whether colored colours at all, which it decides from the environment.
#[verifier::external_body]
pub(crate) fn white_bold(s: &str) -> (r: String)
    ensures
        styled(s@, white_bold_code(), r@),
{
    s.white().bold().to_string()
}

/// Calls colored's `yellow()` and renders the result (`to_string`).
/// Claimed: the text comes back unchanged or between the escape of these
/// SGR parameters and the reset escape (`styled`); which of the two depends
/// on whether colored colours at all, which it decides from the environment.
#[verifier::external_body]
pub(crate) fn yellow(s: &str) -> (r: String)
    ensures
        styled(s@, yellow_code(), r@),
{
    s.yellow().to_string()
}

/// Calls colored's `yellow().bold()` and renders the result (`to_string`).
/// Claimed: the text comes back unchanged or between the escape of these
/// SGR parameters and the reset escape (`styled`); which of the two depends
/// on whether colored colours at all, which it decides from the environment.
#[verifier::external_body]
pub(crate) fn yellow_bold(s: &str) -> (r: String)
    ensures
        styled(s@, yellow_bold_code(), r@),
{
    s.yellow().bold().to_string()
}

/// Calls colored's `cyan().bold()` and renders the result (`to_string`).
/// Claimed: the text comes back unchanged or between the escape of these
/// SGR parameters and the reset escape (`styled`); which of the two depends
/// on whether colored colours at all, which it decides from the environment.
#[verifier::external_body]
pub(crate) fn cyan_bold(s: &str) -> (r: String)
    ensures
        styled(s@, cyan_bold_code(), r@),
{
    s.cyan().bold().to_string()
}

/// Calls colored's `dimmed()` and renders the result (`to_string`).
/// Claimed: the text comes back unchanged or between the escape of these
/// SGR parameters and the reset escape (`styled`); which of the two depends
/// on whether colored colours at all, which it decides from the environment.
#[verifier::external_body]
pub(crate) fn dimmed(s: &str) -> (r: String)
    ensures
        styled(s@, dimmed_code(), r@),
{
    s.dimmed().to_string()
}

/// Calls colored's `italic().white()` and renders the result (`to_string`).
/// Claimed: the text comes back unchanged or between the escape of these
/// SGR parameters and the reset escape (`styled`); which of the two depends
/// on whether colored colours at all, which it decides from the environment.
#[verifier::external_body]
pub(crate) fn italic_white(s: &str) -> (r: String)
    ensures
        styled(s@, italic_white_code(), r@),
{
    s.italic().white().to_string()
}

/// Calls colored's `yellow` and formats the result in a field of `width`
/// characters (`{:width}`). colored pads the text itself, inside the
/// escapes. Claimed: `styled` for the padded text, as for the other colours.
#[verifier::external_body]
pub(crate) fn yellow_padded(s: &str, width: usize) -> (r: String)
    ensures
        styled(pad_right(s@, width as nat), yellow_code(), r@),
{
    format!("{:1$}", s.yellow(), width)
}

} // verus!
