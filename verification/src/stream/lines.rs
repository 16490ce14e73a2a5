//! Newline-delimited decoding of a chunked byte stream.

use std::collections::VecDeque;

use vstd::prelude::*;
use vstd::utf8::{
    decode_first_scalar, decode_utf8, decode_utf8_first_scalar, decode_utf8_split, encode_scalar,
    take_first_scalar, is_char_boundary,
    is_char_boundary_iff_not_is_continuation_byte, length_of_first_scalar,
    pop_first_scalar, valid_first_scalar, valid_utf8, valid_utf8_split,
};

use super::text::{utf8_error, utf8_string};
use crate::error::Error;

verus! {

/// The byte `\n`.
pub const NEWLINE: u8 = 10;

/// The byte `\r`.
pub const CARRIAGE_RETURN: u8 = 13;

/// The index of the first `\n` in `s`, or `-1` when there is none.
pub open spec fn newline_index(s: Seq<u8>) -> int
    decreases s.len(),
{
    if s.len() == 0 {
        -1
    } else if s[0] == NEWLINE {
        0
    } else {
        let rest = newline_index(s.drop_first());
        if rest < 0 {
            -1
        } else {
            rest + 1
        }
    }
}

/// `newline_index` is the position of the first `\n`, or `-1` when `s` has none.
pub proof fn lemma_newline_index(s: Seq<u8>)
    ensures
        -1 <= newline_index(s) < s.len(),
        newline_index(s) >= 0 ==> s[newline_index(s)] == NEWLINE,
        forall|j: int| 0 <= j < s.len() && (newline_index(s) < 0 || j < newline_index(s)) ==> s[j]
            != NEWLINE,
    decreases s.len(),
{
    if s.len() > 0 && s[0] != NEWLINE {
        lemma_newline_index(s.drop_first());
        assert forall|j: int|
            0 <= j < s.len() && (newline_index(s) < 0 || j < newline_index(s)) implies s[j]
            != NEWLINE by {
            if j > 0 {
                assert(s[j] == s.drop_first()[j - 1]);
            }
        }
    }
}

/// A line without its `\n`, with one trailing `\r` removed so CRLF works.
pub open spec fn strip_cr(line: Seq<u8>) -> Seq<u8> {
    if line.len() > 0 && line.last() == CARRIAGE_RETURN {
        line.drop_last()
    } else {
        line
    }
}

/// A line's bytes decoded as UTF-8, or, when they are not valid UTF-8, the
/// rendering of the decoding error.
pub open spec fn decode_line(raw: Seq<u8>) -> Result<Seq<char>, Seq<char>> {
    if valid_utf8(raw) {
        Ok(decode_utf8(raw))
    } else {
        Err(utf8_error(raw))
    }
}

/// A line ending in `\r\n` comes out as the same line ending in `\n`: one `\r`
/// before the newline is dropped, whatever precedes it (an empty line included),
/// and a line not ending in `\r` is kept whole.
pub proof fn lemma_crlf_is_stripped(line: Seq<u8>)
    ensures
        strip_cr(line.push(CARRIAGE_RETURN)) == line,
        line.len() == 0 || line.last() != CARRIAGE_RETURN ==> strip_cr(line) == line,
{
    assert(line.push(CARRIAGE_RETURN).drop_last() =~= line);
}

/// A line's bytes decoded as UTF-8, or, when they are not valid UTF-8, the: one item per
/// `\n`, in order (each line without its `\n` and one trailing `\r`, decoded, or
/// the decoding error of a line that is not UTF-8), and the bytes left over after
/// the last `\n`.
pub open spec fn drain_spec(buf: Seq<u8>) -> (Seq<Result<Seq<char>, Seq<char>>>, Seq<u8>)
    decreases buf.len(),
{
    let i = newline_index(buf);
    if i < 0 {
        (seq![], buf)
    } else {
        proof {
            lemma_newline_index(buf);
        }
        let rest = drain_spec(buf.skip(i + 1));
        (seq![decode_line(strip_cr(buf.take(i)))] + rest.0, rest.1)
    }
}

/// The text of a queued item: a decoded line, or the rendering of a decoding
/// error.
pub open spec fn item_text(item: Result<String, String>) -> Result<Seq<char>, Seq<char>> {
    match item {
        Ok(s) => Ok(s@),
        Err(e) => Err(e@),
    }
}

/// The text of each item of a queue.
pub open spec fn texts(q: Seq<Result<String, String>>) -> Seq<Result<Seq<char>, Seq<char>>> {
    q.map_values(|r: Result<String, String>| item_text(r))
}

/// What the decoder hands out for `item`: the line, or a `Decode` error
/// (`invalid utf-8 line`) carrying the decoding error.
pub open spec fn output_matches(r: LineOutput, item: Result<Seq<char>, Seq<char>>) -> bool {
    match item {
        Ok(t) => r matches LineOutput::Line(s) && s@ == t,
        Err(e) => r matches LineOutput::Failed(Error::Decode { message: m, source: Some(src) })
            && m@ == "invalid utf-8 line"@ && src@ == e,
    }
}

/// Appends `chunk` to the end of `buf`.
pub(crate) fn append_bytes(buf: &mut Vec<u8>, chunk: &[u8])
    ensures
        final(buf)@ == old(buf)@ + chunk@,
{
    let ghost start = old(buf)@;
    let mut i: usize = 0;
    while i < chunk.len()
        invariant
            i <= chunk@.len(),
            buf@ == start + chunk@.take(i as int),
        decreases chunk@.len() - i,
    {
        buf.push(chunk[i]);
        i = i + 1;
        assert(buf@ =~= start + chunk@.take(i as int));
    }
    assert(chunk@.take(i as int) =~= chunk@);
}

/// One step of output from a [`LineDecoder`].
#[derive(Debug)]
pub enum LineOutput {
    /// A decoded line.
    Line(String),
    /// A line that is not valid UTF-8, in its place in the stream.
    Failed(Error),
    /// The input ended and every line has been handed out.
    Finished,
    /// More input is needed before the next line is known.
    NeedInput,
}

/// Splits a chunked byte stream into lines, one per `\n`, buffering across chunk
/// boundaries.
///
/// The trailing newline is stripped (and a preceding `\r`, so CRLF works). A line
/// that is not valid UTF-8 becomes a `Decode` error in its place, and the lines
/// after it are split as usual. A final unterminated line is handed out as it
/// stands when the input ends. Suited to JSONL and other newline-delimited
/// streaming endpoints.
#[derive(Debug)]
pub struct LineDecoder {
    buf: Vec<u8>,
    ready: VecDeque<Result<String, String>>,
    done: bool,
}

impl LineDecoder {
    /// The bytes received but not yet split into lines.
    pub closed spec fn buffered(&self) -> Seq<u8> {
        self.buf@
    }

    /// The split lines (or decoding errors) waiting to be handed out, oldest first.
    pub closed spec fn pending(&self) -> Seq<Result<Seq<char>, Seq<char>>> {
        texts(self.ready@)
    }

    /// Whether the end of the input has been seen.
    pub closed spec fn ended(&self) -> bool {
        self.done
    }

    /// A decoder that has seen no input.
    pub fn new() -> (r: LineDecoder)
        ensures
            r.buffered() == Seq::<u8>::empty(),
            r.pending() == Seq::<Result<Seq<char>, Seq<char>>>::empty(),
            !r.ended(),
    {
        let r = LineDecoder { buf: Vec::new(), ready: VecDeque::new(), done: false };
        assert(texts(r.ready@) =~= Seq::<Result<Seq<char>, Seq<char>>>::empty());
        r
    }

    /// The position of the first `\n` in the buffer, if any.
    fn find_newline(&self) -> (r: Option<usize>)
        ensures
            match r {
                Some(i) => i == newline_index(self.buf@),
                None => newline_index(self.buf@) < 0,
            },
    {
        proof {
            lemma_newline_index(self.buf@);
        }
        let mut j: usize = 0;
        while j < self.buf.len()
            invariant
                j <= self.buf@.len(),
                forall|k: int| 0 <= k < j ==> self.buf@[k] != NEWLINE,
                -1 <= newline_index(self.buf@) < self.buf@.len(),
                newline_index(self.buf@) >= 0 ==> self.buf@[newline_index(self.buf@)] == NEWLINE,
                forall|k: int|
                    0 <= k < self.buf@.len() && (newline_index(self.buf@) < 0 || k
                        < newline_index(self.buf@)) ==> self.buf@[k] != NEWLINE,
            decreases self.buf@.len() - j,
        {
            if self.buf[j] == NEWLINE {
                return Some(j);
            }
            j = j + 1;
        }
        None
    }

    /// Splits every complete line out of the buffer into the ready queue.
    fn drain_lines(&mut self)
        ensures
            final(self).buf@ == drain_spec(old(self).buf@).1,
            texts(final(self).ready@) == texts(old(self).ready@) + drain_spec(old(self).buf@).0,
            final(self).done == old(self).done,
    {
        let ghost start = old(self).buf@;
        let ghost start_ready = texts(old(self).ready@);
        loop
            invariant
                start == old(self).buf@,
                start_ready == texts(old(self).ready@),
                start_ready + drain_spec(start).0 == texts(self.ready@) + drain_spec(self.buf@).0,
                drain_spec(start).1 == drain_spec(self.buf@).1,
                self.done == old(self).done,
            decreases self.buf@.len(),
        {
            match self.find_newline() {
                None => {
                    assert(texts(self.ready@) + drain_spec(self.buf@).0 =~= texts(self.ready@));
                    return;
                },
                Some(nl) => {
                    proof {
                        lemma_newline_index(self.buf@);
                    }
                    assert(nl < self.buf.len());
                    let ghost before = self.buf@;
                    let mut line = self.buf.split_off(0);
                    self.buf = line.split_off(nl + 1);
                    assert(self.buf@ =~= before.skip(nl + 1));
                    assert(line@ =~= before.take(nl as int).push(NEWLINE));
                    line.pop();
                    assert(line@ =~= before.take(nl as int));
                    if line.len() > 0 && line[line.len() - 1] == CARRIAGE_RETURN {
                        line.pop();
                    }
                    assert(line@ =~= strip_cr(before.take(nl as int)));
                    let ghost raw = line@;
                    let item = utf8_string(line);
                    let ghost old_ready = self.ready@;
                    self.ready.push_back(item);
                    assert(item_text(item) == decode_line(raw));
                    assert(texts(self.ready@) =~= texts(old_ready).push(decode_line(raw)));
                    assert(drain_spec(before).0 =~= seq![decode_line(raw)] + drain_spec(
                        self.buf@,
                    ).0);
                    assert(texts(self.ready@) + drain_spec(self.buf@).0 =~= texts(old_ready)
                        + drain_spec(before).0);
                },
            }
        }
    }

    /// Appends a chunk to the buffer and splits out the lines it completes, a line
    /// that is not valid UTF-8 being queued as its decoding error.
    pub fn push_chunk(&mut self, chunk: &[u8])
        ensures
            final(self).buffered() == drain_spec(old(self).buffered() + chunk@).1,
            final(self).pending() == old(self).pending() + drain_spec(old(self).buffered()
                + chunk@).0,
            final(self).ended() == old(self).ended(),
    {
        append_bytes(&mut self.buf, chunk);
        self.drain_lines();
    }

    /// Records that the input has ended.
    pub fn end_of_input(&mut self)
        ensures
            final(self).buffered() == old(self).buffered(),
            final(self).pending() == old(self).pending(),
            final(self).ended(),
    {
        self.done = true;
    }

    /// The next output that can be produced without more input.
    ///
    /// A queued item comes first: a line, or a `Decode` error (`invalid utf-8
    /// line`) for a line that is not UTF-8. Once the input has ended, a final
    /// unterminated line is handed out as it stands (no `\r` is stripped from it),
    /// and after that the decoder reports `Finished`. Otherwise more input is
    /// needed.
    pub fn next_output(&mut self) -> (r: LineOutput)
        ensures
            old(self).pending().len() > 0 ==> {
                &&& output_matches(r, old(self).pending()[0])
                &&& final(self).pending() == old(self).pending().drop_first()
                &&& final(self).buffered() == old(self).buffered()
            },
            old(self).pending().len() == 0 && old(self).ended() && old(self).buffered().len()
                == 0 ==> r is Finished && final(self).buffered() == old(self).buffered(),
            old(self).pending().len() == 0 && old(self).ended() && old(self).buffered().len()
                > 0 ==> {
                &&& final(self).buffered() == Seq::<u8>::empty()
                &&& output_matches(r, decode_line(old(self).buffered()))
            },
            old(self).pending().len() == 0 && !old(self).ended() ==> r is NeedInput
                && final(self).buffered() == old(self).buffered(),
            old(self).pending().len() == 0 ==> final(self).pending() == old(self).pending(),
            final(self).ended() == old(self).ended(),
    {
        let ghost old_ready = self.ready@;
        match self.ready.pop_front() {
            Some(item) => {
                assert(texts(self.ready@) =~= texts(old_ready).drop_first());
                assert(texts(old_ready)[0] == item_text(item));
                return match item {
                    Ok(line) => LineOutput::Line(line),
                    Err(e) => LineOutput::Failed(Error::decode("invalid utf-8 line".to_string(), e)),
                };
            },
            None => {},
        }
        if self.done {
            if self.buf.len() == 0 {
                return LineOutput::Finished;
            }
            let ghost before = self.buf@;
            let rest = self.buf.split_off(0);
            assert(rest@ =~= before);
            assert(self.buf@ =~= Seq::<u8>::empty());
            match utf8_string(rest) {
                Ok(s) => LineOutput::Line(s),
                Err(e) => LineOutput::Failed(Error::decode("invalid utf-8 line".to_string(), e)),
            }
        } else {
            LineOutput::NeedInput
        }
    }
}

/// A first `\n` in `b` is also the first `\n` of `b + c`.
proof fn lemma_newline_index_concat(b: Seq<u8>, c: Seq<u8>)
    requires
        newline_index(b) >= 0,
    ensures
        newline_index(b + c) == newline_index(b),
{
    lemma_newline_index(b);
    lemma_newline_index(b + c);
    let i = newline_index(b);
    let j = newline_index(b + c);
    assert((b + c)[i] == NEWLINE);
    if j >= 0 && j < i {
        assert((b + c)[j] == b[j]);
    }
}

/// Draining `b + c` is draining `b`, then draining what `b` left over followed by
/// `c`.
pub proof fn lemma_drain_concat(b: Seq<u8>, c: Seq<u8>)
    ensures
        drain_spec(b + c) == (
            drain_spec(b).0 + drain_spec(drain_spec(b).1 + c).0,
            drain_spec(drain_spec(b).1 + c).1,
        ),
    decreases b.len(),
{
    let i = newline_index(b);
    if i < 0 {
        assert(drain_spec(b).0 + drain_spec(b + c).0 =~= drain_spec(b + c).0);
    } else {
        lemma_newline_index(b);
        lemma_newline_index_concat(b, c);
        assert((b + c).take(i) =~= b.take(i));
        assert((b + c).skip(i + 1) =~= b.skip(i + 1) + c);
        let rest = b.skip(i + 1);
        lemma_drain_concat(rest, c);
        assert(drain_spec(b).0 + drain_spec(drain_spec(b).1 + c).0 =~= seq![
            decode_line(strip_cr(b.take(i))),
        ] + (drain_spec(rest).0 + drain_spec(drain_spec(rest).1 + c).0));
    }
}

/// What a drain leaves in the buffer holds no `\n`: every complete line is split
/// out.
pub proof fn lemma_drain_rest_has_no_newline(b: Seq<u8>)
    ensures
        newline_index(drain_spec(b).1) < 0,
    decreases b.len(),
{
    let i = newline_index(b);
    if i >= 0 {
        lemma_newline_index(b);
        lemma_drain_rest_has_no_newline(b.skip(i + 1));
    }
}

/// What a decoder holding `buf` hands over after being fed `chunks` one at a time:
/// the items split out, and the bytes left buffered.
pub open spec fn feed(buf: Seq<u8>, chunks: Seq<Seq<u8>>) -> (Seq<Result<Seq<char>, Seq<char>>>, Seq<u8>)
    decreases chunks.len(),
{
    if chunks.len() == 0 {
        (seq![], buf)
    } else {
        let step = drain_spec(buf + chunks[0]);
        let after = feed(step.1, chunks.drop_first());
        (step.0 + after.0, after.1)
    }
}

/// Feeding chunks one at a time to a decoder whose buffer holds no complete line
/// splits out the same items, and leaves the same bytes buffered, as splitting all
/// of their bytes at once.
pub proof fn lemma_feed_is_drain_of_all(buf: Seq<u8>, chunks: Seq<Seq<u8>>)
    requires
        newline_index(buf) < 0,
    ensures
        feed(buf, chunks) == drain_spec(buf + chunks.flatten()),
    decreases chunks.len(),
{
    if chunks.len() == 0 {
        assert(buf + chunks.flatten() =~= buf);
    } else {
        let c0 = chunks[0];
        let rest = chunks.drop_first();
        assert(chunks.flatten() == c0 + rest.flatten());
        assert(buf + chunks.flatten() =~= (buf + c0) + rest.flatten());
        lemma_drain_concat(buf + c0, rest.flatten());
        let step = drain_spec(buf + c0);
        lemma_drain_rest_has_no_newline(buf + c0);
        lemma_feed_is_drain_of_all(step.1, rest);
    }
}

/// Everything a decoder hands out for a whole stream: an item per `\n`, then the
/// final unterminated line, if there is one, as it stands.
pub open spec fn stream_lines(bytes: Seq<u8>) -> Seq<Result<Seq<char>, Seq<char>>> {
    let (items, tail) = drain_spec(bytes);
    if tail.len() > 0 {
        items.push(decode_line(tail))
    } else {
        items
    }
}

/// Everything a decoder hands out after being fed `chunks` and then the end of the
/// input.
pub open spec fn fed_lines(chunks: Seq<Seq<u8>>) -> Seq<Result<Seq<char>, Seq<char>>> {
    let (items, tail) = feed(seq![], chunks);
    if tail.len() > 0 {
        items.push(decode_line(tail))
    } else {
        items
    }
}

/// Two ways of cutting the same bytes into chunks yield the same lines, errors and
/// final line, in the same order: the result of the line decoder does not depend
/// on where the network cut the stream.
pub proof fn lemma_lines_independent_of_chunking(a: Seq<Seq<u8>>, b: Seq<Seq<u8>>)
    requires
        a.flatten() == b.flatten(),
    ensures
        fed_lines(a) == fed_lines(b),
        fed_lines(a) == stream_lines(a.flatten()),
{
    let empty = Seq::<u8>::empty();
    assert(newline_index(empty) < 0);
    assert(empty + a.flatten() =~= a.flatten());
    assert(empty + b.flatten() =~= b.flatten());
    lemma_feed_is_drain_of_all(empty, a);
    lemma_feed_is_drain_of_all(empty, b);
}

/// A line `l` (holding no `\n`) followed by `\r\n`, then anything, is split into
/// the decoding of `l` itself, then the lines of what follows; so is `l` followed
/// by `\n` when `l` does not end in `\r`. In particular a blank CRLF line is the
/// empty line.
pub proof fn lemma_crlf_line(l: Seq<u8>, rest: Seq<u8>)
    requires
        forall|j: int| 0 <= j < l.len() ==> l[j] != NEWLINE,
    ensures
        drain_spec(l + seq![CARRIAGE_RETURN, NEWLINE] + rest) == (
            seq![decode_line(l)] + drain_spec(rest).0,
            drain_spec(rest).1,
        ),
        l.len() == 0 || l.last() != CARRIAGE_RETURN ==> drain_spec(l + seq![NEWLINE] + rest) == (
            seq![decode_line(l)] + drain_spec(rest).0,
            drain_spec(rest).1,
        ),
        decode_line(Seq::<u8>::empty()) == Ok::<Seq<char>, Seq<char>>(Seq::<char>::empty()),
        drain_spec(seq![CARRIAGE_RETURN, NEWLINE]).0 == seq![
            Ok::<Seq<char>, Seq<char>>(Seq::<char>::empty()),
        ],
{
    let b = l + seq![CARRIAGE_RETURN, NEWLINE] + rest;
    lemma_newline_index(b);
    let n = l.len() as int;
    assert(b[n] == CARRIAGE_RETURN);
    assert(b[n + 1] == NEWLINE);
    assert forall|j: int| 0 <= j < n implies b[j] != NEWLINE by {
        assert(b[j] == l[j]);
    }
    assert(newline_index(b) == n + 1);
    assert(b.take(n + 1) =~= l.push(CARRIAGE_RETURN));
    assert(b.skip(n + 2) =~= rest);
    lemma_crlf_is_stripped(l);
    let c = l + seq![NEWLINE] + rest;
    lemma_newline_index(c);
    assert(c[n] == NEWLINE);
    assert forall|j: int| 0 <= j < n implies c[j] != NEWLINE by {
        assert(c[j] == l[j]);
    }
    assert(newline_index(c) == n);
    assert(c.take(n) =~= l);
    assert(c.skip(n + 1) =~= rest);
    let e = Seq::<u8>::empty();
    assert(valid_utf8(e));
    assert(decode_utf8(e) =~= Seq::<char>::empty());
    let crlf = seq![CARRIAGE_RETURN, NEWLINE];
    lemma_newline_index(crlf);
    assert(crlf[0] != NEWLINE);
    assert(newline_index(crlf) == 1);
    assert(crlf.take(1) =~= e.push(CARRIAGE_RETURN));
    lemma_crlf_is_stripped(e);
    assert(crlf.skip(2) =~= e);
    assert(drain_spec(e).0 =~= Seq::<Result<Seq<char>, Seq<char>>>::empty());
    assert(drain_spec(crlf).0 =~= seq![decode_line(e)] + drain_spec(e).0);
}

/// The raw lines of `buf`: the bytes before each `\n`, in order, and the bytes
/// after the last one.
pub open spec fn split_spec(buf: Seq<u8>) -> (Seq<Seq<u8>>, Seq<u8>)
    decreases buf.len(),
{
    let i = newline_index(buf);
    if i < 0 {
        (seq![], buf)
    } else {
        proof {
            lemma_newline_index(buf);
        }
        let rest = split_spec(buf.skip(i + 1));
        (seq![buf.take(i)] + rest.0, rest.1)
    }
}

/// Raw lines put back together: each followed by its `\n`, then the tail.
pub open spec fn rejoin(lines: Seq<Seq<u8>>, tail: Seq<u8>) -> Seq<u8>
    decreases lines.len(),
{
    if lines.len() == 0 {
        tail
    } else {
        lines[0] + seq![NEWLINE] + rejoin(lines.drop_first(), tail)
    }
}

/// The decoder splits at every `\n` and nowhere else: each item it queues is one
/// raw line (stripped of one trailing `\r` and decoded), no raw line holds a `\n`,
/// neither does the tail left buffered, and the raw lines with their newlines
/// restored, followed by the tail, give back the input.
pub proof fn lemma_lines_split_at_newlines(buf: Seq<u8>)
    ensures
        drain_spec(buf).0 == split_spec(buf).0.map_values(
            |raw: Seq<u8>| decode_line(strip_cr(raw)),
        ),
        drain_spec(buf).1 == split_spec(buf).1,
        forall|k: int, j: int|
            0 <= k < split_spec(buf).0.len() && 0 <= j < split_spec(buf).0[k].len() ==> (
            #[trigger] split_spec(buf).0[k][j]) != NEWLINE,
        newline_index(split_spec(buf).1) < 0,
        rejoin(split_spec(buf).0, split_spec(buf).1) == buf,
    decreases buf.len(),
{
    let i = newline_index(buf);
    lemma_newline_index(buf);
    if i >= 0 {
        let rest = buf.skip(i + 1);
        lemma_lines_split_at_newlines(rest);
        let segs = split_spec(buf).0;
        assert(segs == seq![buf.take(i)] + split_spec(rest).0);
        assert(segs.drop_first() =~= split_spec(rest).0);
        assert(drain_spec(buf).0 =~= segs.map_values(|raw: Seq<u8>| decode_line(strip_cr(raw))));
        assert forall|k: int, j: int|
            0 <= k < segs.len() && 0 <= j < segs[k].len() implies (#[trigger] segs[k][j])
            != NEWLINE by {
            if k == 0 {
                assert(segs[0] == buf.take(i));
                assert(buf.take(i)[j] == buf[j]);
            } else {
                assert(segs[k] == split_spec(rest).0[k - 1]);
            }
        }
        assert(buf.take(i) + seq![NEWLINE] + rest =~= buf);
    }
}

/// Lines joined back together, with a `\n` between each two.
pub open spec fn join_lines(lines: Seq<Seq<char>>) -> Seq<char>
    decreases lines.len(),
{
    if lines.len() == 0 {
        seq![]
    } else if lines.len() == 1 {
        lines[0]
    } else {
        lines[0] + seq!['\n'] + join_lines(lines.drop_first())
    }
}

/// The text of each decoded item, with nothing for an error.
pub open spec fn ok_texts(items: Seq<Result<Seq<char>, Seq<char>>>) -> Seq<Seq<char>> {
    items.map_values(
        |r: Result<Seq<char>, Seq<char>>|
            match r {
                Ok(t) => t,
                Err(_) => seq![],
            },
    )
}

/// Valid UTF-8 without the byte `\n` decodes to text without `'\n'`.
proof fn lemma_no_newline_char(x: Seq<u8>)
    requires
        valid_utf8(x),
        forall|j: int| 0 <= j < x.len() ==> x[j] != NEWLINE,
    ensures
        forall|k: int| 0 <= k < decode_utf8(x).len() ==> decode_utf8(x)[k] != '\n',
    decreases x.len(),
{
    if x.len() > 0 {
        let rest = pop_first_scalar(x);
        assert(valid_first_scalar(x));
        let c = decode_first_scalar(x);
        decode_utf8_first_scalar(x);
        if (c as char) == '\n' {
            assert(('\n' as u32) == 10u32);
            assert((10u32 & 0x7Fu32) as u8 == 10u8) by (bit_vector);
            assert(encode_scalar(10u32) =~= seq![10u8]);
            assert(take_first_scalar(x)[0] == x[0]);
            assert(false);
        }
        assert(rest.len() < x.len());
        assert forall|j: int| 0 <= j < rest.len() implies rest[j] != NEWLINE by {
            assert(rest[j] == x[j + length_of_first_scalar(x)]);
        }
        lemma_no_newline_char(rest);
        assert(decode_utf8(x) == seq![c as char] + decode_utf8(rest));
    }
}

/// Cutting valid UTF-8 at a `\n` leaves valid UTF-8 on both sides, and the text
/// is the two sides' text with a `'\n'` between.
proof fn lemma_decode_split_at_newline(b: Seq<u8>, i: int)
    requires
        valid_utf8(b),
        0 <= i < b.len(),
        b[i] == NEWLINE,
    ensures
        valid_utf8(b.take(i)),
        valid_utf8(b.skip(i + 1)),
        decode_utf8(b) == decode_utf8(b.take(i)) + seq!['\n'] + decode_utf8(b.skip(i + 1)),
{
    is_char_boundary_iff_not_is_continuation_byte(b, i);
    assert(is_char_boundary(b, i));
    valid_utf8_split(b, i);
    decode_utf8_split(b, i);
    assert(b.subrange(0, i) =~= b.take(i));
    let s2 = b.subrange(i, b.len() as int);
    assert(s2 =~= b.skip(i));
    assert(s2[0] == NEWLINE);
    assert(valid_first_scalar(s2));
    assert(length_of_first_scalar(s2) == 1);
    assert(pop_first_scalar(s2) =~= b.skip(i + 1));
    let n = NEWLINE;
    assert(n <= 0x7f ==> (n & 0x7f) == n) by (bit_vector);
    assert(decode_first_scalar(s2) == 10u32);
    assert((10u32 as char) == '\n');
    assert(decode_utf8(s2) == seq![decode_first_scalar(s2) as char] + decode_utf8(
        pop_first_scalar(s2),
    ));
    assert(decode_utf8(b) =~= decode_utf8(b.take(i)) + seq!['\n'] + decode_utf8(b.skip(i + 1)));
}

/// Raw lines put back together with their newlines, decoded, are the decoded
/// lines joined with `'\n'`, followed by the decoded tail.
proof fn lemma_valid_drain(b: Seq<u8>)
    requires
        valid_utf8(b),
        forall|j: int| 0 <= j < b.len() ==> b[j] != CARRIAGE_RETURN,
    ensures
        forall|k: int| 0 <= k < drain_spec(b).0.len() ==> (#[trigger] drain_spec(b).0[k]) is Ok,
        forall|k: int, j: int|
            0 <= k < drain_spec(b).0.len() && 0 <= j < ok_texts(drain_spec(b).0)[k].len() ==> (
            #[trigger] ok_texts(drain_spec(b).0)[k][j]) != '\n',
        valid_utf8(drain_spec(b).1),
        forall|j: int|
            0 <= j < decode_utf8(drain_spec(b).1).len() ==> decode_utf8(drain_spec(b).1)[j]
                != '\n',
        decode_utf8(b) == join_lines(ok_texts(drain_spec(b).0).push(decode_utf8(drain_spec(b).1))),
    decreases b.len(),
{
    let i = newline_index(b);
    lemma_newline_index(b);
    if i < 0 {
        lemma_no_newline_char(b);
        assert(ok_texts(drain_spec(b).0).push(decode_utf8(b)) =~= seq![decode_utf8(b)]);
    } else {
        lemma_decode_split_at_newline(b, i);
        let line = b.take(i);
        let rest = b.skip(i + 1);
        assert(strip_cr(line) == line) by {
            if line.len() > 0 {
                assert(line.last() == b[i - 1]);
            }
        }
        assert forall|j: int| 0 <= j < line.len() implies line[j] != NEWLINE by {
            assert(line[j] == b[j]);
        }
        lemma_no_newline_char(line);
        assert forall|j: int| 0 <= j < rest.len() implies rest[j] != CARRIAGE_RETURN by {
            assert(rest[j] == b[i + 1 + j]);
        }
        lemma_valid_drain(rest);
        let items = drain_spec(b).0;
        assert(items == seq![decode_line(line)] + drain_spec(rest).0);
        assert(decode_line(line) == Ok::<Seq<char>, Seq<char>>(decode_utf8(line)));
        let texts_rest = ok_texts(drain_spec(rest).0).push(decode_utf8(drain_spec(rest).1));
        let all = ok_texts(items).push(decode_utf8(drain_spec(b).1));
        assert(all =~= seq![decode_utf8(line)] + texts_rest);
        assert(all.drop_first() =~= texts_rest);
        assert(all.len() > 1);
        assert forall|k: int| 0 <= k < items.len() implies (#[trigger] items[k]) is Ok by {
            if k > 0 {
                assert(items[k] == drain_spec(rest).0[k - 1]);
            }
        }
        assert forall|k: int, j: int|
            0 <= k < items.len() && 0 <= j < ok_texts(items)[k].len() implies (
            #[trigger] ok_texts(items)[k][j]) != '\n' by {
            if k > 0 {
                assert(ok_texts(items)[k] == ok_texts(drain_spec(rest).0)[k - 1]);
            }
        }
    }
}

/// The lines of a stream of valid UTF-8 text without `\r`, however it is cut into
/// chunks: every item decodes, no line holds a `'\n'`, and the lines joined with
/// `'\n'` give back the text, but for at most one final `'\n'`.
pub proof fn lemma_valid_text_lines(chunks: Seq<Seq<u8>>)
    requires
        valid_utf8(chunks.flatten()),
        forall|j: int| 0 <= j < chunks.flatten().len() ==> chunks.flatten()[j] != CARRIAGE_RETURN,
    ensures
        forall|k: int| 0 <= k < fed_lines(chunks).len() ==> (#[trigger] fed_lines(chunks)[k]) is Ok,
        forall|k: int, j: int|
            0 <= k < fed_lines(chunks).len() && 0 <= j < ok_texts(fed_lines(chunks))[k].len() ==> (
            #[trigger] ok_texts(fed_lines(chunks))[k][j]) != '\n',
        decode_utf8(chunks.flatten()) == join_lines(ok_texts(fed_lines(chunks)))
            || decode_utf8(chunks.flatten()) == join_lines(ok_texts(fed_lines(chunks))) + seq![
            '\n',
        ],
{
    let s = chunks.flatten();
    lemma_lines_independent_of_chunking(chunks, chunks);
    lemma_valid_drain(s);
    let items = drain_spec(s).0;
    let tail = drain_spec(s).1;
    let out = fed_lines(chunks);
    assert(out == stream_lines(s));
    if tail.len() > 0 {
        assert(decode_line(tail) == Ok::<Seq<char>, Seq<char>>(decode_utf8(tail)));
        assert(out == items.push(decode_line(tail)));
        assert(ok_texts(out) =~= ok_texts(items).push(decode_utf8(tail)));
        assert forall|k: int| 0 <= k < out.len() implies (#[trigger] out[k]) is Ok by {
            if k < items.len() {
                assert(out[k] == items[k]);
            }
        }
        assert forall|k: int, j: int|
            0 <= k < out.len() && 0 <= j < ok_texts(out)[k].len() implies (
            #[trigger] ok_texts(out)[k][j]) != '\n' by {
            if k < items.len() {
                assert(ok_texts(out)[k] == ok_texts(items)[k]);
            }
        }
    } else {
        assert(out == items);
        assert(tail =~= Seq::<u8>::empty());
        assert(decode_utf8(tail) =~= Seq::<char>::empty());
        lemma_join_push_empty(ok_texts(items));
    }
}

/// Joining lines with an empty last line adds a final `'\n'` (when there are
/// other lines).
proof fn lemma_join_push_empty(lines: Seq<Seq<char>>)
    ensures
        join_lines(lines.push(seq![])) == join_lines(lines) + seq!['\n']
            || (lines.len() == 0 && join_lines(lines.push(seq![])) == join_lines(lines)),
    decreases lines.len(),
{
    if lines.len() == 0 {
        assert(lines.push(seq![]) =~= seq![Seq::<char>::empty()]);
    } else if lines.len() == 1 {
        let pushed = lines.push(seq![]);
        assert(pushed.drop_first() =~= seq![Seq::<char>::empty()]);
        assert(join_lines(pushed.drop_first()) == Seq::<char>::empty());
        assert(pushed[0] == lines[0]);
        assert(join_lines(lines) == lines[0]);
        assert(join_lines(pushed) =~= lines[0] + seq!['\n']);
    } else {
        lemma_join_push_empty(lines.drop_first());
        assert(lines.push(seq![]).drop_first() =~= lines.drop_first().push(seq![]));
        assert(join_lines(lines.push(seq![])) =~= join_lines(lines) + seq!['\n']);
    }
}

} // verus!
