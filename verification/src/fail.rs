//! The one shape in which every command reports that it failed.

use ansi_term::Colour;
use vstd::prelude::*;
use vstd::string::StringExecFns;

verus! {

/// `text` between the terminal codes that switch red on and all styles off.
pub open spec fn painted_red(text: Seq<char>) -> Seq<char> {
    "\x1B[31m"@ + text + "\x1B[0m"@
}

/// The message of a failure with a one-line detail.
pub open spec fn failure_text(header: Seq<char>, detailed: Seq<char>) -> Seq<char> {
    painted_red(header) + ", "@ + detailed
}

/// `ansi_term::Colour::Red.paint`, displayed: the escape sequence for a red
/// foreground, the text unchanged, then the reset sequence.
#[verifier::external_body]
pub(crate) fn paint_red(text: &str) -> (r: String)
    ensures
        r@ == painted_red(text@),
{
    format!("{}", Colour::Red.paint(text))
}

/// A failure, as the message to show for it.
#[derive(Debug)]
pub struct Failure {
    show: String,
}

impl View for Failure {
    type V = Seq<char>;

    closed spec fn view(&self) -> Seq<char> {
        self.show@
    }
}

impl Failure {
    /// A failure that shows `show` as it is.
    pub fn new(show: String) -> (r: Failure)
        ensures
            r@ == show@,
    {
        Failure { show }
    }

    /// The message to show.
    pub fn message(&self) -> (r: String)
        ensures
            r@ == self@,
    {
        self.show.clone()
    }
}

/// A failure that shows its header alone, in red.
pub fn failure_header(header: &str) -> (r: Failure)
    ensures
        r@ == painted_red(header@),
{
    Failure { show: paint_red(header) }
}

/// Canonical representation of an error message: the header in red, a comma,
/// the detail.
pub fn failure(header: &str, detailed: &str) -> (r: Failure)
    ensures
        r@ == failure_text(header@, detailed@),
{
    let mut show = paint_red(header);
    show.append(", ");
    show.append(detailed);
    Failure { show }
}

} // verus!
