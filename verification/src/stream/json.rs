//! Buffering for a stream of concatenated JSON values.

use std::collections::VecDeque;

use vstd::prelude::*;

use super::lines::append_bytes;
use crate::error::Error;

verus! {

/// Whether `b` is ASCII whitespace: space, tab, line feed, form feed, carriage return.
pub open spec fn is_ascii_whitespace(b: u8) -> bool {
    b == 32 || b == 9 || b == 10 || b == 12 || b == 13
}

/// Whether `s` holds a byte that is not ASCII whitespace.
pub open spec fn has_content(s: Seq<u8>) -> bool {
    exists|i: int| 0 <= i < s.len() && !is_ascii_whitespace(#[trigger] s[i])
}

/// How a scan of the buffer for JSON values ended.
#[derive(Debug)]
pub enum JsonStop {
    /// The input ran out inside a value: the rest of the buffer is an incomplete
    /// value that later chunks may complete.
    Incomplete,
    /// A value is malformed, with the parser's description.
    Invalid(String),
    /// Every value in the buffer was read.
    Exhausted,
}

/// One step of output from a [`JsonDecoder`].
#[derive(Debug)]
pub enum JsonOutput<T> {
    /// A value, or a malformed one.
    Item(core::result::Result<T, Error>),
    /// The input ended and every value has been handed out.
    Finished,
    /// More input is needed before the next value is known.
    NeedInput,
}

/// Buffers a stream of concatenated JSON values (e.g. `{"i":0}{"i":1}`), the wire
/// format BentoML uses for structured streaming outputs, across chunk boundaries.
///
/// The values themselves are read by a JSON parser over [`JsonDecoder::buffer`];
/// [`JsonDecoder::apply_scan`] takes what a scan found and keeps the unconsumed
/// bytes for the next chunk.
#[derive(Debug)]
pub struct JsonDecoder<T> {
    buf: Vec<u8>,
    ready: VecDeque<core::result::Result<T, Error>>,
    done: bool,
}

impl<T> JsonDecoder<T> {
    /// The bytes received but not yet consumed as values.
    pub closed spec fn buffered(&self) -> Seq<u8> {
        self.buf@
    }

    /// The values (or errors) waiting to be handed out, oldest first.
    pub closed spec fn pending(&self) -> Seq<core::result::Result<T, Error>> {
        self.ready@
    }

    /// Whether the end of the input has been seen.
    pub closed spec fn ended(&self) -> bool {
        self.done
    }

    /// A decoder that has seen no input.
    pub fn new() -> (r: JsonDecoder<T>)
        ensures
            r.buffered() == Seq::<u8>::empty(),
            r.pending().len() == 0,
            !r.ended(),
    {
        JsonDecoder { buf: Vec::new(), ready: VecDeque::new(), done: false }
    }

    /// The buffered bytes, for the parser to scan.
    pub fn buffer(&self) -> (r: &[u8])
        ensures
            r@ == self.buffered(),
    {
        self.buf.as_slice()
    }

    /// Appends a chunk to the buffer.
    pub fn push_chunk(&mut self, chunk: &[u8])
        ensures
            final(self).buffered() == old(self).buffered() + chunk@,
            final(self).pending() == old(self).pending(),
            final(self).ended() == old(self).ended(),
    {
        append_bytes(&mut self.buf, chunk);
    }

    /// Takes the result of scanning the buffer: the complete `values` read from its
    /// front, in order, how the scan `stop`ped, and the number of bytes `consumed`
    /// by the values read.
    ///
    /// The values are queued; a malformed value also queues a `Decode` error
    /// (`invalid json value`) after them. The consumed bytes leave the buffer (at
    /// most all of it), and the rest, an incomplete trailing value, stays for the
    /// next chunk. After a malformed value there is no reliable point to resume
    /// from, so the whole buffer is dropped and its bad bytes are reported once.
    pub fn apply_scan(&mut self, values: Vec<T>, stop: JsonStop, consumed: usize)
        ensures
            stop is Invalid ==> final(self).buffered() == Seq::<u8>::empty(),
            !(stop is Invalid) ==> final(self).buffered() == old(self).buffered().skip(
                if consumed <= old(self).buffered().len() {
                    consumed as int
                } else {
                    old(self).buffered().len() as int
                },
            ),
            final(self).ended() == old(self).ended(),
            final(self).pending().len() == old(self).pending().len() + values@.len() + (
            if stop is Invalid {
                1int
            } else {
                0int
            }),
            forall|i: int|
                0 <= i < old(self).pending().len() ==> final(self).pending()[i] == old(
                    self,
                ).pending()[i],
            forall|i: int|
                0 <= i < values@.len() ==> final(self).pending()[old(self).pending().len() + i]
                    == Ok::<T, Error>(values@[i]),
            stop matches JsonStop::Invalid(m) ==> (final(self).pending().last() matches Err(
                Error::Decode { message: msg, source: Some(src) },
            ) && msg@ == "invalid json value"@ && src@ == m@),
    {
        let ghost start = self.ready@;
        let n = values.len();
        let mut values = values;
        let ghost vals = values@;
        let mut k: usize = 0;
        while k < n
            invariant
                k <= n,
                n == vals.len(),
                values@.len() == n - k,
                forall|j: int| 0 <= j < n - k ==> values@[j] == vals[k + j],
                self.ready@.len() == start.len() + k,
                forall|j: int| 0 <= j < start.len() ==> self.ready@[j] == start[j],
                forall|j: int| 0 <= j < k ==> self.ready@[start.len() + j] == Ok::<T, Error>(vals[j]),
                self.buf@ == old(self).buf@,
                self.done == old(self).done,
            decreases n - k,
        {
            let v = values.remove(0);
            self.ready.push_back(Ok(v));
            k = k + 1;
        }
        match stop {
            JsonStop::Invalid(m) => {
                self.ready.push_back(Err(Error::decode("invalid json value".to_string(), m)));
                self.buf.clear();
            },
            _ => {
                let len = self.buf.len();
                let cut = if consumed <= len {
                    consumed
                } else {
                    len
                };
                let rest = self.buf.split_off(cut);
                self.buf = rest;
            },
        }
    }

    /// Records that the input has ended.
    pub fn end_of_input(&mut self)
        ensures
            final(self).buffered() == old(self).buffered(),
            final(self).pending() == old(self).pending(),
            final(self).ended(),
    {
        self.done = true;
    }

    /// Whether the buffer holds anything but ASCII whitespace.
    fn buffer_has_content(&self) -> (r: bool)
        ensures
            r == has_content(self.buf@),
    {
        let mut i: usize = 0;
        while i < self.buf.len()
            invariant
                i <= self.buf@.len(),
                forall|j: int| 0 <= j < i ==> is_ascii_whitespace(#[trigger] self.buf@[j]),
            decreases self.buf@.len() - i,
        {
            let b = self.buf[i];
            if !(b == 32 || b == 9 || b == 10 || b == 12 || b == 13) {
                return true;
            }
            i = i + 1;
        }
        false
    }

    /// The next output that can be produced without more input.
    ///
    /// A queued value comes first. Once the input has ended, bytes other than
    /// whitespace left in the buffer are a trailing incomplete value: they are
    /// dropped and reported as a `Decode` error (`trailing incomplete json value`);
    /// after that the decoder reports `Finished`. Otherwise more input is needed.
    pub fn next_output(&mut self) -> (r: JsonOutput<T>)
        ensures
            old(self).pending().len() > 0 ==> {
                &&& r matches JsonOutput::Item(x) && x == old(self).pending()[0]
                &&& final(self).pending() == old(self).pending().drop_first()
                &&& final(self).buffered() == old(self).buffered()
            },
            old(self).pending().len() == 0 && old(self).ended() && has_content(
                old(self).buffered(),
            ) ==> {
                &&& r matches JsonOutput::Item(Err(Error::Decode { message: m, source: None }))
                &&& m@ == "trailing incomplete json value"@
                &&& final(self).buffered() == Seq::<u8>::empty()
            },
            old(self).pending().len() == 0 && old(self).ended() && !has_content(
                old(self).buffered(),
            ) ==> r is Finished && final(self).buffered() == old(self).buffered(),
            old(self).pending().len() == 0 && !old(self).ended() ==> r is NeedInput
                && final(self).buffered() == old(self).buffered(),
            old(self).pending().len() == 0 ==> final(self).pending() == old(self).pending(),
            final(self).ended() == old(self).ended(),
    {
        match self.ready.pop_front() {
            Some(x) => {
                return JsonOutput::Item(x);
            },
            None => {},
        }
        if self.done {
            if self.buffer_has_content() {
                self.buf.clear();
                return JsonOutput::Item(
                    Err(Error::decode_message("trailing incomplete json value".to_string())),
                );
            }
            JsonOutput::Finished
        } else {
            JsonOutput::NeedInput
        }
    }
}

} // verus!
