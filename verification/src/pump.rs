//! The pump of one channel: bytes in, events out.
use vstd::prelude::*;
use crate::event::{decode_line, decoded, emitted, line_views, LogLine, Source};
use crate::framing::{all_lines, chomp, closed_lines, feedless, lemma_chunking,
    lemma_feedless_stream, lemma_single_line, residue, LineBuffer, LINE_FEED};

verus! {

/// Reads one channel of the tool. It owns the bytes of the line that is
/// still open, and shares nothing with any other pump.
pub struct Pump {
    source: Source,
    buffer: LineBuffer,
}

impl Pump {
    /// The channel that this pump reads.
    pub closed spec fn source(&self) -> Source {
        self.source
    }

    /// The bytes of the open line.
    pub closed spec fn pending(&self) -> Seq<u8> {
        self.buffer@
    }

    pub closed spec fn wf(&self) -> bool {
        self.buffer.wf()
    }

    pub fn new(source: Source) -> (pump: Self)
        ensures
            pump.wf(),
            pump.source() == source,
            pump.pending() == Seq::<u8>::empty(),
    {
        Pump { source, buffer: LineBuffer::new() }
    }

    pub fn tag(&self) -> (source: Source)
        ensures
            source == self.source(),
    {
        self.source
    }

    /// Takes the next chunk read from the channel and returns the events of
    /// the lines that it closes, to be delivered at once and in this order.
    pub fn feed(&mut self, chunk: &[u8]) -> (events: Vec<LogLine>)
        requires
            old(self).wf(),
        ensures
            final(self).wf(),
            final(self).source() == old(self).source(),
            final(self).pending() == residue(old(self).pending() + chunk@),
            line_views(events@) == emitted(
                old(self).source(),
                closed_lines(old(self).pending() + chunk@),
            ),
    {
        let ghost start = self.buffer@;
        let source = self.source;
        let mut events: Vec<LogLine> = Vec::new();
        let mut i: usize = 0;
        proof {
            lemma_feedless_stream(start);
            assert(start + chunk@.take(0) =~= start);
            assert(line_views(events@) =~= emitted(source, closed_lines(start)));
        }
        while i < chunk.len()
            invariant
                0 <= i <= chunk.len(),
                self.buffer.wf(),
                self.source == source,
                self.buffer@ == residue(start + chunk@.take(i as int)),
                line_views(events@) == emitted(source, closed_lines(start + chunk@.take(i as int))),
            decreases chunk.len() - i,
        {
            let ghost seen = start + chunk@.take(i as int);
            let ghost next = start + chunk@.take(i + 1);
            let ghost step = closed_lines(residue(seen).push(chunk@[i as int]));
            proof {
                lemma_chunking(seen, seq![chunk@[i as int]]);
                assert(seen + seq![chunk@[i as int]] =~= next);
                assert(residue(seen) + seq![chunk@[i as int]] =~= residue(seen).push(
                    chunk@[i as int],
                ));
                crate::event::lemma_emitted_concat(source, closed_lines(seen), step);
            }
            match self.buffer.push_byte(chunk[i]) {
                Some(bytes) => {
                    let ghost before = events@;
                    assert(step =~= seq![bytes@]);
                    assert(step.drop_last() =~= Seq::<Seq<u8>>::empty());
                    assert(emitted(source, step.drop_last()) =~= Seq::<(Source, Seq<char>)>::empty());
                    match decode_line(source, bytes) {
                        Some(line) => {
                            events.push(line);
                            assert(line_views(events@) =~= line_views(before).push(line@));
                        },
                        None => {},
                    }
                },
                None => {
                    assert(step =~= Seq::<Seq<u8>>::empty());
                },
            }
            i = i + 1;
        }
        proof {
            assert(chunk@.take(i as int) =~= chunk@);
        }
        events
    }

    /// Ends the channel: returns the event of the open line, if it holds any
    /// bytes and they are text.
    pub fn finish(&mut self) -> (last: Option<LogLine>)
        requires
            old(self).wf(),
        ensures
            final(self).wf(),
            final(self).source() == old(self).source(),
            final(self).pending() == Seq::<u8>::empty(),
            old(self).pending().len() == 0 || decoded(old(self).pending()) is None ==> last is None,
            old(self).pending().len() > 0 && decoded(old(self).pending()) is Some ==> (last matches Some(
                l,
            ) && l@ == (old(self).source(), decoded(old(self).pending())->Some_0)),
    {
        match self.buffer.take_open_line() {
            Some(bytes) => decode_line(self.source, bytes),
            None => None,
        }
    }

    /// Takes what one read on the channel gave: `None` for a read that
    /// failed, no bytes for a channel that has ended, else the bytes read.
    /// Returns the events to deliver, and whether to read again: the pump
    /// stops at the end of the channel and at the first fault.
    pub fn on_read(&mut self, reading: Option<&[u8]>) -> (turn: (Vec<LogLine>, bool))
        requires
            old(self).wf(),
        ensures
            final(self).wf(),
            final(self).source() == old(self).source(),
            turn.1 == (reading matches Some(chunk) && chunk@.len() > 0),
            final(self).pending() == (match reading {
                None => old(self).pending(),
                Some(chunk) => if chunk@.len() == 0 {
                    Seq::empty()
                } else {
                    residue(old(self).pending() + chunk@)
                },
            }),
            line_views(turn.0@) == reading_events(
                old(self).source(),
                old(self).pending(),
                match reading {
                    None => None,
                    Some(chunk) => Some(chunk@),
                },
            ),
    {
        match reading {
            None => {
                let events: Vec<LogLine> = Vec::new();
                assert(line_views(events@) =~= Seq::<(Source, Seq<char>)>::empty());
                (events, false)
            },
            Some(chunk) => {
                if chunk.len() == 0 {
                    let ghost open = self.buffer@;
                    let mut events: Vec<LogLine> = Vec::new();
                    proof {
                        assert(seq![open].drop_last() =~= Seq::<Seq<u8>>::empty());
                        assert(emitted(self.source, seq![open].drop_last())
                            =~= Seq::<(Source, Seq<char>)>::empty());
                    }
                    match self.finish() {
                        Some(line) => {
                            events.push(line);
                            assert(line_views(events@) =~= seq![line@]);
                        },
                        None => {
                            assert(line_views(events@) =~= Seq::<(Source, Seq<char>)>::empty());
                        },
                    }
                    (events, false)
                } else {
                    (self.feed(chunk), true)
                }
            },
        }
    }
}

/// The events that one read on a channel gives rise to: none after a fault;
/// those of the open line, if there is one, when the read gave no bytes,
/// which is how a channel ends; else those of the lines that the bytes close.
pub open spec fn reading_events(source: Source, pending: Seq<u8>, reading: Option<Seq<u8>>) -> Seq<
    (Source, Seq<char>),
> {
    match reading {
        None => Seq::empty(),
        Some(chunk) => if chunk.len() == 0 {
            emitted(
                source,
                if pending.len() > 0 {
                    seq![pending]
                } else {
                    Seq::empty()
                },
            )
        } else {
            emitted(source, closed_lines(pending + chunk))
        },
    }
}

/// The events of a channel.
pub open spec fn delivered(source: Source, stream: Seq<u8>) -> Seq<(Source, Seq<char>)> {
    emitted(source, all_lines(stream))
}

/// Reads a channel whose whole content is at hand: every closed line, then
/// the open one, each as its event if it is text.
pub fn pump_stream(source: Source, stream: &[u8]) -> (events: Vec<LogLine>)
    ensures
        line_views(events@) == delivered(source, stream@),
{
    let mut pump = Pump::new(source);
    let mut events = pump.feed(stream);
    let ghost closed = events@;
    proof {
        assert(Seq::<u8>::empty() + stream@ =~= stream@);
        if residue(stream@).len() > 0 {
            assert(all_lines(stream@).drop_last() =~= closed_lines(stream@));
        }
    }
    match pump.finish() {
        Some(line) => {
            events.push(line);
            assert(line_views(events@) =~= line_views(closed).push(line@));
        },
        None => {},
    }
    events
}

/// Reading a channel in two chunks delivers what reading it in one delivers:
/// the events of the lines that the first chunk closes, then the events of
/// the rest, read after the line that the first chunk left open.
pub proof fn lemma_delivery_ignores_chunking(source: Source, head: Seq<u8>, tail: Seq<u8>)
    ensures
        delivered(source, head + tail) == emitted(source, closed_lines(head)) + delivered(
            source,
            residue(head) + tail,
        ),
{
    lemma_chunking(head, tail);
    let first = closed_lines(head);
    let second = closed_lines(residue(head) + tail);
    let open = residue(head + tail);
    crate::event::lemma_emitted_concat(source, first, second);
    if open.len() > 0 {
        assert(all_lines(head + tail) =~= first + all_lines(residue(head) + tail));
        crate::event::lemma_emitted_concat(source, first, all_lines(residue(head) + tail));
    }
}

/// A line that the tool wrote in full, feed included, gives exactly one event
/// where it is text, and none where it is not, whatever was written before
/// and after it; and the event's text is the line's own, without the feed
/// and the carriage return before it. `before` ends where a line ends.
pub proof fn lemma_written_line_is_delivered(
    source: Source,
    before: Seq<u8>,
    line: Seq<u8>,
    after: Seq<u8>,
)
    requires
        residue(before).len() == 0,
        feedless(line),
    ensures
        delivered(source, before + line.push(LINE_FEED) + after) == delivered(source, before)
            + emitted(source, seq![chomp(line)]) + delivered(source, after),
        emitted(source, seq![chomp(line)]) == (match decoded(chomp(line)) {
            Some(text) => seq![(source, text)],
            None => Seq::empty(),
        }),
{
    let written = line.push(LINE_FEED);
    let head = before + written;
    lemma_chunking(before, written);
    lemma_single_line(line);
    assert(residue(before) + written =~= written);
    assert(residue(head) + after =~= after);
    lemma_delivery_ignores_chunking(source, head, after);
    crate::event::lemma_emitted_concat(source, closed_lines(before), seq![chomp(line)]);
    let one = seq![chomp(line)];
    assert(one.drop_last() =~= Seq::<Seq<u8>>::empty());
    assert(emitted(source, one.drop_last()) =~= Seq::<(Source, Seq<char>)>::empty());
    assert(emitted(source, one) =~= (match decoded(chomp(line)) {
        Some(text) => seq![(source, text)],
        None => Seq::empty(),
    }));
}

} // verus!
