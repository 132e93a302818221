use vstd::prelude::*;

verus! {

/// The ANSI control sequence that turns bold text on.
pub open spec fn bold_on() -> Seq<char> {
    "\u{1b}[1m"@
}

/// The ANSI control sequence that turns italic text on.
pub open spec fn italic_on() -> Seq<char> {
    "\u{1b}[3m"@
}

/// The ANSI control sequence that resets all styling.
pub open spec fn style_off() -> Seq<char> {
    "\u{1b}[0m"@
}

/// A text wrapped in the bold-on and reset control sequences.
pub open spec fn bold_text(s: Seq<char>) -> Seq<char> {
    bold_on() + s + style_off()
}

/// A text wrapped in the italic-on and reset control sequences.
pub open spec fn italic_text(s: Seq<char>) -> Seq<char> {
    italic_on() + s + style_off()
}

/// Relies on ansi_term's `Style::paint` and its `Display`: a style with
/// only the bold flag set writes `ESC[1m` before the text and the reset
/// sequence `ESC[0m` after it, and the text itself unchanged.
#[verifier::external_body]
pub(crate) fn bold(s: &str) -> (r: String)
    ensures
        r@ == bold_text(s@),
{
    format!("{}", ansi_term::Style::new().bold().paint(s))
}

/// Relies on ansi_term's `Style::paint` and its `Display`: a style with
/// only the italic flag set writes `ESC[3m` before the text and the reset
/// sequence `ESC[0m` after it, and the text itself unchanged.
#[verifier::external_body]
pub(crate) fn italic(s: &str) -> (r: String)
    ensures
        r@ == italic_text(s@),
{
    format!("{}", ansi_term::Style::new().italic().paint(s))
}

} // verus!
