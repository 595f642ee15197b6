//! Cuts a stream of bytes, which arrives in chunks of any size, into lines.
//!
//! A line ends at a line feed. The line feed is not part of the line, and
//! neither is one carriage return that stands directly before it. What follows
//! the last line feed is kept until more bytes arrive or the stream ends.
use vstd::prelude::*;

verus! {

pub const LINE_FEED: u8 = 10;

pub const CARRIAGE_RETURN: u8 = 13;

/// True when no byte of `bytes` is a line feed.
pub open spec fn feedless(bytes: Seq<u8>) -> bool {
    forall|i: int| 0 <= i < bytes.len() ==> bytes[i] != LINE_FEED
}

/// `line` without one trailing carriage return.
pub open spec fn chomp(line: Seq<u8>) -> Seq<u8> {
    if line.len() > 0 && line.last() == CARRIAGE_RETURN {
        line.drop_last()
    } else {
        line
    }
}

/// The bytes of `stream` that follow its last line feed: the line that is
/// still open.
pub open spec fn residue(stream: Seq<u8>) -> Seq<u8>
    decreases stream.len(),
{
    if stream.len() == 0 {
        Seq::empty()
    } else if stream.last() == LINE_FEED {
        Seq::empty()
    } else {
        residue(stream.drop_last()).push(stream.last())
    }
}

/// The lines of `stream` that a line feed has closed, in order.
pub open spec fn closed_lines(stream: Seq<u8>) -> Seq<Seq<u8>>
    decreases stream.len(),
{
    if stream.len() == 0 {
        Seq::empty()
    } else if stream.last() == LINE_FEED {
        closed_lines(stream.drop_last()).push(chomp(residue(stream.drop_last())))
    } else {
        closed_lines(stream.drop_last())
    }
}

/// All lines of a stream that has ended: the closed ones, then the open one
/// unless it is empty. The open line keeps a trailing carriage return.
pub open spec fn all_lines(stream: Seq<u8>) -> Seq<Seq<u8>> {
    if residue(stream).len() == 0 {
        closed_lines(stream)
    } else {
        closed_lines(stream).push(residue(stream))
    }
}

/// The bytes of each vector of a sequence.
pub open spec fn rows(items: Seq<Vec<u8>>) -> Seq<Seq<u8>> {
    Seq::new(items.len(), |i: int| items[i]@)
}

/// A line that may be absent, as a sequence of none or one.
pub open spec fn line_seq(line: Option<Vec<u8>>) -> Seq<Vec<u8>> {
    match line {
        Some(bytes) => seq![bytes],
        None => Seq::empty(),
    }
}

/// The open line holds no line feed, and is the end of the stream; the byte
/// before it, if there is one, is a line feed.
pub proof fn lemma_residue_is_tail(stream: Seq<u8>)
    ensures
        feedless(residue(stream)),
        residue(stream).len() <= stream.len(),
        residue(stream) == stream.subrange(stream.len() - residue(stream).len(), stream.len() as int),
        residue(stream).len() < stream.len() ==> stream[stream.len() - residue(stream).len() - 1]
            == LINE_FEED,
    decreases stream.len(),
{
    if stream.len() > 0 && stream.last() != LINE_FEED {
        let init = stream.drop_last();
        lemma_residue_is_tail(init);
        assert(residue(stream) =~= stream.subrange(
            stream.len() - residue(stream).len(),
            stream.len() as int,
        ));
    } else {
        assert(residue(stream) =~= stream.subrange(stream.len() as int, stream.len() as int));
    }
}

/// A stream without a line feed is one open line.
pub proof fn lemma_feedless_stream(stream: Seq<u8>)
    requires
        feedless(stream),
    ensures
        residue(stream) == stream,
        closed_lines(stream) == Seq::<Seq<u8>>::empty(),
    decreases stream.len(),
{
    if stream.len() > 0 {
        lemma_feedless_stream(stream.drop_last());
        assert(residue(stream) =~= stream);
    } else {
        assert(residue(stream) =~= stream);
    }
}

/// A line feed after bytes that hold none closes exactly one line.
pub proof fn lemma_single_line(line: Seq<u8>)
    requires
        feedless(line),
    ensures
        closed_lines(line.push(LINE_FEED)) == seq![chomp(line)],
        residue(line.push(LINE_FEED)) == Seq::<u8>::empty(),
{
    lemma_feedless_stream(line);
    let stream = line.push(LINE_FEED);
    assert(stream.drop_last() =~= line);
    assert(closed_lines(stream) =~= seq![chomp(line)]);
}

/// Where a stream is cut into chunks makes no difference: the lines of
/// `head + tail` are the lines of `head`, then the lines of `tail` read after
/// the line that `head` left open.
pub proof fn lemma_chunking(head: Seq<u8>, tail: Seq<u8>)
    ensures
        closed_lines(head + tail) == closed_lines(head) + closed_lines(residue(head) + tail),
        residue(head + tail) == residue(residue(head) + tail),
    decreases tail.len(),
{
    if tail.len() == 0 {
        lemma_residue_is_tail(head);
        lemma_feedless_stream(residue(head));
        assert(head + tail =~= head);
        assert(residue(head) + tail =~= residue(head));
        assert(closed_lines(head) + Seq::<Seq<u8>>::empty() =~= closed_lines(head));
    } else {
        let init = tail.drop_last();
        lemma_chunking(head, init);
        assert((head + tail).drop_last() =~= head + init);
        assert((residue(head) + tail).drop_last() =~= residue(head) + init);
        assert((head + tail).last() == tail.last());
        assert((residue(head) + tail).last() == tail.last());
        assert(closed_lines(head + tail) =~= closed_lines(head) + closed_lines(
            residue(head) + tail,
        ));
    }
}

/// The bytes of a stream that belong to no closed line yet.
pub struct LineBuffer {
    pending: Vec<u8>,
}

impl View for LineBuffer {
    type V = Seq<u8>;

    /// The bytes of the open line.
    closed spec fn view(&self) -> Seq<u8> {
        self.pending@
    }
}

impl LineBuffer {
    /// The open line never holds a line feed.
    pub open spec fn wf(&self) -> bool {
        feedless(self@)
    }

    pub fn new() -> (buffer: Self)
        ensures
            buffer.wf(),
            buffer@ == Seq::<u8>::empty(),
    {
        LineBuffer { pending: Vec::new() }
    }

    /// Takes the next byte of the stream. A line feed closes the open line,
    /// which is returned without a carriage return at its end; any other
    /// byte joins the open line.
    pub fn push_byte(&mut self, byte: u8) -> (line: Option<Vec<u8>>)
        requires
            old(self).wf(),
        ensures
            final(self).wf(),
            byte != LINE_FEED ==> line is None && final(self)@ == old(self)@.push(byte),
            byte == LINE_FEED ==> final(self)@ == Seq::<u8>::empty() && (line matches Some(bytes)
                && bytes@ == chomp(old(self)@)),
            final(self)@ == residue(old(self)@.push(byte)),
            rows(line_seq(line)) == closed_lines(old(self)@.push(byte)),
    {
        proof {
            lemma_feedless_stream(self@);
            assert(self@.push(byte).drop_last() =~= self@);
        }
        if byte == LINE_FEED {
            let mut line: Vec<u8> = Vec::new();
            std::mem::swap(&mut line, &mut self.pending);
            let n: usize = line.len();
            if n > 0 && line[n - 1] == CARRIAGE_RETURN {
                line.pop();
            }
            assert(line@ =~= chomp(old(self)@));
            assert(rows(seq![line]) =~= seq![line@]);
            assert(closed_lines(old(self)@.push(byte)) =~= seq![line@]);
            Some(line)
        } else {
            self.pending.push(byte);
            assert(rows(Seq::<Vec<u8>>::empty()) =~= Seq::<Seq<u8>>::empty());
            None
        }
    }

    /// Takes the next chunk of the stream and returns the lines that it
    /// closes, the first of them begun by the bytes held so far.
    pub fn push_chunk(&mut self, chunk: &[u8]) -> (lines: Vec<Vec<u8>>)
        requires
            old(self).wf(),
        ensures
            final(self).wf(),
            final(self)@ == residue(old(self)@ + chunk@),
            rows(lines@) == closed_lines(old(self)@ + chunk@),
    {
        let ghost start = self@;
        let mut lines: Vec<Vec<u8>> = Vec::new();
        let mut i: usize = 0;
        proof {
            lemma_feedless_stream(start);
            assert(start + chunk@.take(0) =~= start);
            assert(rows(lines@) =~= closed_lines(start));
        }
        while i < chunk.len()
            invariant
                0 <= i <= chunk.len(),
                self.wf(),
                self@ == residue(start + chunk@.take(i as int)),
                rows(lines@) == closed_lines(start + chunk@.take(i as int)),
            decreases chunk.len() - i,
        {
            let ghost seen = start + chunk@.take(i as int);
            let ghost next = start + chunk@.take(i + 1);
            proof {
                assert(next =~= seen.push(chunk@[i as int]));
                lemma_chunking(seen, seq![chunk@[i as int]]);
                assert(seen + seq![chunk@[i as int]] =~= next);
                assert(residue(seen) + seq![chunk@[i as int]] =~= residue(seen).push(
                    chunk@[i as int],
                ));
            }
            let ghost before = lines@;
            match self.push_byte(chunk[i]) {
                Some(line) => {
                    lines.push(line);
                    assert(rows(lines@) =~= rows(before) + rows(seq![line]));
                },
                None => {
                    assert(rows(lines@) =~= rows(before) + rows(Seq::<Vec<u8>>::empty()));
                },
            }
            i = i + 1;
        }
        proof {
            assert(chunk@.take(i as int) =~= chunk@);
        }
        lines
    }

    /// Ends the stream: returns the open line, unless it is empty, and leaves
    /// the buffer empty.
    pub fn take_open_line(&mut self) -> (line: Option<Vec<u8>>)
        ensures
            final(self).wf(),
            final(self)@ == Seq::<u8>::empty(),
            old(self)@.len() == 0 ==> line is None,
            old(self)@.len() > 0 ==> (line matches Some(bytes) && bytes@ == old(self)@),
    {
        let mut line: Vec<u8> = Vec::new();
        std::mem::swap(&mut line, &mut self.pending);
        if line.len() == 0 {
            None
        } else {
            Some(line)
        }
    }
}

} // verus!
