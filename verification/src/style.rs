//! Colour and marking of the lines that go to a terminal.

use vstd::prelude::*;
use vstd::string::*;
use crate::consts::{PURPLE, RESET};

verus! {

/// The marker that stands before each line of the program's own output.
pub const MARKER: &'static str = "=> ";

/// `text` wrapped in the escape sequence `shade` and the reset sequence.
pub open spec fn colored(shade: Seq<char>, text: Seq<char>) -> Seq<char> {
    shade + text + RESET@
}

/// `text` in the colour `shade`, or bare when colour is off.
pub open spec fn tinted(shade: Seq<char>, text: Seq<char>, on: bool) -> Seq<char> {
    if on {
        colored(shade, text)
    } else {
        text
    }
}

/// A line of the program's own output: the marker in purple, then the
/// text.
pub open spec fn marked(text: Seq<char>) -> Seq<char> {
    colored(PURPLE@, MARKER@) + text
}

/// Wraps `text` in the escape sequence `shade` and the reset sequence.
pub fn color(shade: &str, text: &str) -> (out: String)
    ensures
        out@ == colored(shade@, text@),
{
    let mut out = String::from_str(shade);
    out.append(text);
    out.append(RESET);
    out
}

/// Renders `text` in the colour `shade`, or bare when colour is off.
pub fn tint(shade: &str, text: &str, on: bool) -> (out: String)
    ensures
        out@ == tinted(shade@, text@, on),
{
    if on {
        color(shade, text)
    } else {
        String::from_str(text)
    }
}

/// Puts the marker before a line of output.
pub fn mark(text: &str) -> (out: String)
    ensures
        out@ == marked(text@),
{
    let mut out = color(PURPLE, MARKER);
    out.append(text);
    out
}

} // verus!
