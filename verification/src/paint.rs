//! Terminal styling of pieces of text. The escape sequences are produced by
//! the `owo-colors` crate, as `color-eyre` re-exports it, and by the `colored`
//! crate; the functions here call them and state what they hand back. Those
//! statements are taken on trust: Verus does not read the other crates.

use color_eyre::owo_colors::OwoColorize;
use colored::Colorize;
use vstd::prelude::*;

verus! {

/// `text` in a yellow foreground, reset to the default foreground after it.
pub open spec fn yellow_of(text: Seq<char>) -> Seq<char> {
    "\x1b[33m"@ + text + "\x1b[39m"@
}

/// `text` in a green foreground, reset to the default foreground after it.
pub open spec fn green_of(text: Seq<char>) -> Seq<char> {
    "\x1b[32m"@ + text + "\x1b[39m"@
}

/// `text` in a blue foreground, reset to the default foreground after it.
pub open spec fn blue_of(text: Seq<char>) -> Seq<char> {
    "\x1b[34m"@ + text + "\x1b[39m"@
}

/// `text` in a cyan foreground, reset to the default foreground after it.
pub open spec fn cyan_of(text: Seq<char>) -> Seq<char> {
    "\x1b[36m"@ + text + "\x1b[39m"@
}

/// `text` in bold, with every attribute reset after it.
pub open spec fn bold_of(text: Seq<char>) -> Seq<char> {
    "\x1b[1m"@ + text + "\x1b[0m"@
}

/// `text` in bold red, with every attribute reset after it.
pub open spec fn bold_red_of(text: Seq<char>) -> Seq<char> {
    "\x1b[1;31m"@ + text + "\x1b[0m"@
}

/// Whether `text` is free of the escape character, so that no styling crate
/// finds a sequence of its own inside it.
pub open spec fn escape_free(text: Seq<char>) -> bool {
    !text.contains('\x1b')
}

/// Calls `OwoColorize::yellow` of owo-colors and renders the result.
/// Trusted: the rendering is the foreground code 33, the text as it is, and
/// the code 39 that restores the default foreground.
#[verifier::external_body]
pub(crate) fn yellow(text: &str) -> (r: String)
    ensures
        r@ == yellow_of(text@),
{
    OwoColorize::yellow(&text).to_string()
}

/// Calls `OwoColorize::green` of owo-colors and renders the result.
/// Trusted: the rendering is the foreground code 32, the text as it is, and
/// the code 39 that restores the default foreground.
#[verifier::external_body]
pub(crate) fn green(text: &str) -> (r: String)
    ensures
        r@ == green_of(text@),
{
    OwoColorize::green(&text).to_string()
}

/// Calls `OwoColorize::blue` of owo-colors and renders the result.
/// Trusted: the rendering is the foreground code 34, the text as it is, and
/// the code 39 that restores the default foreground.
#[verifier::external_body]
pub(crate) fn blue(text: &str) -> (r: String)
    ensures
        r@ == blue_of(text@),
{
    OwoColorize::blue(&text).to_string()
}

/// Calls `OwoColorize::cyan` of owo-colors and renders the result.
/// Trusted: the rendering is the foreground code 36, the text as it is, and
/// the code 39 that restores the default foreground.
#[verifier::external_body]
pub(crate) fn cyan(text: &str) -> (r: String)
    ensures
        r@ == cyan_of(text@),
{
    OwoColorize::cyan(&text).to_string()
}

/// Calls `OwoColorize::bold` of owo-colors and renders the result.
/// Trusted: the rendering is the attribute code 1, the text as it is, and the
/// code 0 that resets every attribute.
#[verifier::external_body]
pub(crate) fn bold(text: &str) -> (r: String)
    ensures
        r@ == bold_of(text@),
{
    OwoColorize::bold(&text).to_string()
}

/// Calls `Colorize::bold` of colored and renders the result. Whether colored
/// styles at all depends on the terminal and on the environment, so two calls
/// may differ. Trusted, for a text without an escape character: the rendering
/// is either the text as it is, or the text in bold as `bold_of` has it.
#[verifier::external_body]
pub(crate) fn terminal_bold(text: &str) -> (r: String)
    ensures
        escape_free(text@) ==> r@ == text@ || r@ == bold_of(text@),
{
    Colorize::bold(text).to_string()
}

/// Calls `Colorize::bold` and then `Colorize::red` of colored and renders the
/// result. Whether colored styles at all depends on the terminal and on the
/// environment, so two calls may differ. Trusted, for a text without an
/// escape character: the rendering is either the text as it is, or the text
/// in bold red as `bold_red_of` has it.
#[verifier::external_body]
pub(crate) fn terminal_bold_red(text: &str) -> (r: String)
    ensures
        escape_free(text@) ==> r@ == text@ || r@ == bold_red_of(text@),
{
    Colorize::red(Colorize::bold(text)).to_string()
}

} // verus!
