//! Splitting and trimming of text, done by the standard library.

use vstd::prelude::*;

verus! {

/// The position of the first occurrence of `needle` in `s` at or after
/// `from`, or the length of `s` where there is none.
pub open spec fn first_occurrence(s: Seq<char>, needle: Seq<char>, from: int) -> int
    recommends
        needle.len() > 0,
    decreases s.len() - from,
{
    if needle.len() == 0 || from < 0 || from + needle.len() > s.len() {
        s.len() as int
    } else if s.subrange(from, from + needle.len()) == needle {
        from
    } else {
        first_occurrence(s, needle, from + 1)
    }
}

/// The parts of `s` between the occurrences of `separator`, found from left
/// to right without overlap. There is always at least one part; a part is
/// empty where two separators touch or one stands at an end.
pub open spec fn split_seq(s: Seq<char>, separator: Seq<char>) -> Seq<Seq<char>>
    recommends
        separator.len() > 0,
    decreases s.len(),
{
    let at = first_occurrence(s, separator, 0);
    if separator.len() == 0 || at < 0 || at + separator.len() > s.len() {
        seq![s]
    } else {
        seq![s.subrange(0, at)] + split_seq(
            s.subrange(at + separator.len(), s.len() as int),
            separator,
        )
    }
}

/// A line without the carriage return that ends it, if one does.
pub open spec fn without_carriage_return(line: Seq<char>) -> Seq<char> {
    if line.len() > 0 && line.last() == '\r' {
        line.drop_last()
    } else {
        line
    }
}

/// The lines of `s`. A line ends at a line feed, which is not part of it, nor
/// is a carriage return just before that line feed. What follows the last
/// line feed is a line as it stands, unless it is empty.
pub open spec fn lines_seq(s: Seq<char>) -> Seq<Seq<char>>
    decreases s.len(),
{
    let at = first_occurrence(s, seq!['\n'], 0);
    if s.len() == 0 {
        Seq::empty()
    } else if at < 0 || at + 1 > s.len() {
        seq![s]
    } else {
        seq![without_carriage_return(s.subrange(0, at))] + lines_seq(
            s.subrange(at + 1, s.len() as int),
        )
    }
}

/// What `str::trim` leaves of `s`: the text without the white space at its
/// two ends.
pub uninterp spec fn trimmed(s: Seq<char>) -> Seq<char>;

/// Splits `text` at each occurrence of `separator` with `str::split`.
///
/// Believed, not proved: the parts are those of `split_seq`, each copied out
/// as a string.
#[verifier::external_body]
pub(crate) fn split_text(text: &str, separator: &str) -> (parts: Vec<String>)
    requires
        separator@.len() > 0,
    ensures
        parts.deep_view() == split_seq(text@, separator@),
{
    text.split(separator).map(|p| p.to_string()).collect()
}

/// Splits `text` into its lines with `str::lines`.
///
/// Believed, not proved: the lines are those of `lines_seq`, each copied out
/// as a string.
#[verifier::external_body]
pub(crate) fn text_lines(text: &str) -> (lines: Vec<String>)
    ensures
        lines.deep_view() == lines_seq(text@),
{
    text.lines().map(|l| l.to_string()).collect()
}

/// Removes the white space at both ends of `text` with `str::trim`.
///
/// Believed, not proved: the result is what `trimmed` names.
#[verifier::external_body]
pub(crate) fn trim_text(text: &str) -> (r: &str)
    ensures
        r@ == trimmed(text@),
{
    text.trim()
}

} // verus!
