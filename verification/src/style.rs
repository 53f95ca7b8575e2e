//! ANSI styling of the confirmation output.

use vstd::prelude::*;

verus! {

/// `s` wrapped in the ANSI escape codes for green text.
pub open spec fn green_text(s: Seq<char>) -> Seq<char> {
    "\x1b[32m"@ + s + "\x1b[0m"@
}

/// `s` wrapped in the ANSI escape codes for bold text.
pub open spec fn bold_text(s: Seq<char>) -> Seq<char> {
    "\x1b[1m"@ + s + "\x1b[0m"@
}

/// The confirmation line printed after an announced switch.
pub open spec fn confirmation_text(theme: Seq<char>) -> Seq<char> {
    "\u{21aa}\u{fe0f} Changed alacritty theme to: "@ + bold_text(green_text(theme))
}

/// Renders `s` in green.
pub fn green(s: &str) -> (r: String)
    ensures
        r@ == green_text(s@),
{
    let mut out = String::from_str("\x1b[32m");
    out.append(s);
    out.append("\x1b[0m");
    out
}

/// Renders `s` in bold.
pub fn bold(s: &str) -> (r: String)
    ensures
        r@ == bold_text(s@),
{
    let mut out = String::from_str("\x1b[1m");
    out.append(s);
    out.append("\x1b[0m");
    out
}

/// The line that announces a switch to `theme`, the name bold and green.
pub fn confirmation_line(theme: &str) -> (r: String)
    ensures
        r@ == confirmation_text(theme@),
{
    let styled = bold(green(theme).as_str());
    let mut out = String::from_str("\u{21aa}\u{fe0f} Changed alacritty theme to: ");
    out.append(styled.as_str());
    out
}

} // verus!
