//! Terminal colours. The escape codes come from the `colored` crate, which
//! decides for itself whether it colours at all: from the process
//! environment, and from a switch that any thread may throw at any moment.
//! So a painted text is known only up to that choice.

use colored::Colorize;
use vstd::prelude::*;

verus! {

/// The escape character that opens every control sequence.
pub open spec fn escape() -> char {
    '\x1b'
}

/// The sequence that ends a coloured stretch.
pub open spec fn reset_code() -> Seq<char> {
    seq![escape(), '[', '0', 'm']
}

/// The sequence that opens a yellow stretch.
pub open spec fn yellow_code() -> Seq<char> {
    seq![escape(), '[', '3', '3', 'm']
}

/// The sequence that opens a bold blue stretch.
pub open spec fn bold_blue_code() -> Seq<char> {
    seq![escape(), '[', '1', ';', '3', '4', 'm']
}

/// The sequence that opens a bold green stretch.
pub open spec fn bold_green_code() -> Seq<char> {
    seq![escape(), '[', '1', ';', '3', '2', 'm']
}

/// The sequence that opens a dimmed stretch.
pub open spec fn dimmed_code() -> Seq<char> {
    seq![escape(), '[', '2', 'm']
}

/// Whether `text` holds the reset sequence somewhere.
pub open spec fn has_reset(text: Seq<char>) -> bool {
    exists|i: int| 0 <= i && i + 4 <= text.len() && #[trigger] text.subrange(i, i + 4) == reset_code()
}

/// Whether `out` may be what painting `text` with the opening sequence `code`
/// gives: the text itself where colours are off; the text between `code` and
/// the reset sequence where they are on; and the text with the reset
/// sequence alone behind it where they go off while the text is being
/// written out. Of a text that already holds a reset sequence nothing is
/// said.
pub open spec fn painted(out: Seq<char>, text: Seq<char>, code: Seq<char>) -> bool {
    ||| out == text
    ||| out == code + text + reset_code()
    ||| out == text + reset_code()
    ||| has_reset(text)
}

/// Whether `out` is `lead`, then a painting of `text` with `code`, then
/// `tail`.
pub open spec fn paints_within(
    out: Seq<char>,
    lead: Seq<char>,
    text: Seq<char>,
    code: Seq<char>,
    tail: Seq<char>,
) -> bool {
    &&& out.len() >= lead.len() + tail.len()
    &&& out.subrange(0, lead.len() as int) == lead
    &&& out.subrange(out.len() - tail.len(), out.len() as int) == tail
    &&& painted(out.subrange(lead.len() as int, out.len() - tail.len()), text, code)
}

/// A text without the escape character holds no reset sequence.
pub proof fn lemma_no_escape_no_reset(text: Seq<char>)
    requires
        forall|i: int| 0 <= i < text.len() ==> text[i] != escape(),
    ensures
        !has_reset(text),
{
}

/// A painted text between a lead and a tail is a painting within them.
pub proof fn lemma_paints_within(
    lead: Seq<char>,
    mid: Seq<char>,
    tail: Seq<char>,
    text: Seq<char>,
    code: Seq<char>,
)
    requires
        painted(mid, text, code),
    ensures
        paints_within(lead + mid + tail, lead, text, code, tail),
{
    let out = lead + mid + tail;
    assert(out.subrange(0, lead.len() as int) == lead);
    assert(out.subrange(out.len() - tail.len(), out.len() as int) == tail);
    assert(out.subrange(lead.len() as int, out.len() - tail.len()) == mid);
}

/// A painting of a text that holds no reset sequence holds the text itself,
/// in one piece, at the position that this function returns.
pub proof fn lemma_painted_holds_text(out: Seq<char>, text: Seq<char>, code: Seq<char>) -> (at: int)
    requires
        painted(out, text, code),
        !has_reset(text),
    ensures
        0 <= at,
        at + text.len() <= out.len(),
        out.subrange(at, at + text.len()) == text,
{
    if out == text || out == text + reset_code() {
        0
    } else {
        let at = code.len() as int;
        at
    }
}

/// A stretch of a stretch is a stretch of the whole.
pub proof fn lemma_stretch_of_stretch(s: Seq<char>, a: int, b: int, i: int, j: int)
    requires
        0 <= a <= b <= s.len(),
        0 <= i <= j <= b - a,
    ensures
        s.subrange(a, b).subrange(i, j) == s.subrange(a + i, a + j),
{
}

/// A painting, within a lead and a tail, of a text that holds no reset
/// sequence holds the text itself, in one piece, at the position that this
/// function returns.
pub proof fn lemma_paints_within_holds_text(
    out: Seq<char>,
    lead: Seq<char>,
    text: Seq<char>,
    code: Seq<char>,
    tail: Seq<char>,
) -> (at: int)
    requires
        paints_within(out, lead, text, code, tail),
        !has_reset(text),
    ensures
        0 <= at,
        at + text.len() <= out.len(),
        out.subrange(at, at + text.len()) == text,
{
    let mid = out.subrange(lead.len() as int, out.len() - tail.len());
    let inner = lemma_painted_holds_text(mid, text, code);
    lemma_stretch_of_stretch(
        out,
        lead.len() as int,
        out.len() - tail.len(),
        inner,
        inner + text.len(),
    );
    lead.len() + inner
}

/// Calls `Colorize::yellow` on a `&str` and writes the result out with
/// `to_string`. Taken on trust from the `colored` crate: what comes back is
/// one of the forms that `painted` allows for yellow.
#[verifier::external_body]
pub(crate) fn paint_yellow(text: &str) -> (r: String)
    ensures
        painted(r@, text@, yellow_code()),
{
    text.yellow().to_string()
}

/// Calls `Colorize::blue`, then `Colorize::bold`, and writes the result out
/// with `to_string`. Taken on trust from the `colored` crate: what comes
/// back is one of the forms that `painted` allows for bold blue.
#[verifier::external_body]
pub(crate) fn paint_bold_blue(text: &str) -> (r: String)
    ensures
        painted(r@, text@, bold_blue_code()),
{
    text.blue().bold().to_string()
}

/// Calls `Colorize::green`, then `Colorize::bold`, and writes the result out
/// with `to_string`. Taken on trust from the `colored` crate: what comes
/// back is one of the forms that `painted` allows for bold green.
#[verifier::external_body]
pub(crate) fn paint_bold_green(text: &str) -> (r: String)
    ensures
        painted(r@, text@, bold_green_code()),
{
    text.green().bold().to_string()
}

/// Calls `Colorize::dimmed` on a `&str` and writes the result out with
/// `to_string`. Taken on trust from the `colored` crate: what comes back is
/// one of the forms that `painted` allows for dimmed text.
#[verifier::external_body]
pub(crate) fn paint_dimmed(text: &str) -> (r: String)
    ensures
        painted(r@, text@, dimmed_code()),
{
    text.dimmed().to_string()
}

} // verus!
