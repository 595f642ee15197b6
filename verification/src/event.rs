//! The events that the lines of the tool's output become.
use vstd::prelude::*;
use vstd::utf8::{decode_utf8, valid_utf8};

verus! {

/// The channel of the tool that a line was read from.
#[derive(Clone, Copy, Debug, PartialEq, Eq, Structural)]
pub enum Source {
    Output,
    Error,
}

/// One line of the tool's output, as it is handed to the listener.
#[derive(Clone, Debug, PartialEq, Eq)]
pub struct LogLine {
    pub source: Source,
    pub text: String,
}

impl View for LogLine {
    type V = (Source, Seq<char>);

    open spec fn view(&self) -> (Source, Seq<char>) {
        (self.source, self.text@)
    }
}

/// The views of a sequence of log lines.
pub open spec fn line_views(lines: Seq<LogLine>) -> Seq<(Source, Seq<char>)> {
    Seq::new(lines.len(), |i: int| lines[i]@)
}

/// The one kind of event under which every line is delivered.
pub fn event_name() -> (name: &'static str)
    ensures
        name@ == "samplem-log"@,
{
    "samplem-log"
}

/// The text of a line, where its bytes are UTF-8.
pub open spec fn decoded(bytes: Seq<u8>) -> Option<Seq<char>> {
    if valid_utf8(bytes) {
        Some(decode_utf8(bytes))
    } else {
        None
    }
}

/// The events that a channel's lines give rise to: one for each line that
/// decodes, in the order of the lines. A line that does not decode is passed
/// over.
pub open spec fn emitted(source: Source, lines: Seq<Seq<u8>>) -> Seq<(Source, Seq<char>)>
    decreases lines.len(),
{
    if lines.len() == 0 {
        Seq::empty()
    } else {
        let earlier = emitted(source, lines.drop_last());
        match decoded(lines.last()) {
            Some(text) => earlier.push((source, text)),
            None => earlier,
        }
    }
}

/// The event for one line, given what decoding it gave.
pub fn log_line(source: Source, text: Option<String>) -> (line: Option<LogLine>)
    ensures
        text is None ==> line is None,
        text matches Some(t) ==> (line matches Some(l) && l.source == source && l.text == t),
{
    match text {
        Some(t) => Some(LogLine { source, text: t }),
        None => None,
    }
}

/// Decodes with `String::from_utf8`, which succeeds exactly on well-formed
/// UTF-8 and then yields the characters that the bytes encode. Trusted: the
/// standard library's decoder is taken to agree with `vstd::utf8`.
#[verifier::external_body]
fn decode_text(bytes: Vec<u8>) -> (text: Option<String>)
    ensures
        text is Some <==> valid_utf8(bytes@),
        text matches Some(t) ==> t@ == decode_utf8(bytes@),
{
    match String::from_utf8(bytes) {
        Ok(t) => Some(t),
        Err(_) => None,
    }
}

/// Turns the bytes of one line into its event, if they are text.
pub fn decode_line(source: Source, bytes: Vec<u8>) -> (line: Option<LogLine>)
    ensures
        decoded(bytes@) is None ==> line is None,
        decoded(bytes@) matches Some(t) ==> (line matches Some(l) && l@ == (source, t)),
{
    log_line(source, decode_text(bytes))
}

/// The events of two runs of lines are those of the first, then those of the
/// second.
pub proof fn lemma_emitted_concat(source: Source, first: Seq<Seq<u8>>, second: Seq<Seq<u8>>)
    ensures
        emitted(source, first + second) == emitted(source, first) + emitted(source, second),
    decreases second.len(),
{
    if second.len() == 0 {
        assert(first + second =~= first);
        assert(emitted(source, first) + emitted(source, second) =~= emitted(source, first));
    } else {
        lemma_emitted_concat(source, first, second.drop_last());
        assert((first + second).drop_last() =~= first + second.drop_last());
        assert((first + second).last() == second.last());
        assert(emitted(source, first + second) =~= emitted(source, first) + emitted(
            source,
            second,
        ));
    }
}

/// Lines that all decode give one event each, with the line's own text, in
/// the order of the lines.
pub proof fn lemma_text_lines_all_emitted(source: Source, lines: Seq<Seq<u8>>)
    requires
        forall|i: int| 0 <= i < lines.len() ==> valid_utf8(#[trigger] lines[i]),
    ensures
        emitted(source, lines).len() == lines.len(),
        forall|i: int|
            0 <= i < lines.len() ==> #[trigger] emitted(source, lines)[i] == (
                source,
                decode_utf8(lines[i]),
            ),
    decreases lines.len(),
{
    if lines.len() > 0 {
        lemma_text_lines_all_emitted(source, lines.drop_last());
    }
}

/// No event is made up: there are never more events than lines, and every
/// event carries the channel's own tag.
pub proof fn lemma_emitted_bounded(source: Source, lines: Seq<Seq<u8>>)
    ensures
        emitted(source, lines).len() <= lines.len(),
        forall|i: int|
            0 <= i < emitted(source, lines).len() ==> (#[trigger] emitted(source, lines)[i]).0
                == source,
    decreases lines.len(),
{
    if lines.len() > 0 {
        lemma_emitted_bounded(source, lines.drop_last());
    }
}

} // verus!
