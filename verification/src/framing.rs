//! The line framer of the inbound direction: a stream of bytes, cut into
//! reads in whatever way, becomes the lines it holds.
//!
//! A line ends with a line feed. The line feed is not part of the line, nor
//! is a carriage return just before it. A line that is not UTF-8 cannot be
//! read, which ends the connection like the end of the stream does.

use crate::session::{Event, EventView};
use crate::text::{first_index, lemma_first_index, lemma_first_index_is};
use vstd::prelude::*;
use vstd::utf8::{decode_utf8, encode_utf8, valid_utf8};

verus! {

/// One line of input.
#[derive(Clone, Debug, PartialEq, Eq)]
pub enum Inbound {
    /// The text of a line.
    Line(String),
    /// A line that is not UTF-8.
    Invalid,
}

/// The mathematical value of an [`Inbound`].
pub enum InboundView {
    Line(Seq<char>),
    Invalid,
}

impl View for Inbound {
    type V = InboundView;

    open spec fn view(&self) -> InboundView {
        match self {
            Inbound::Line(text) => InboundView::Line(text@),
            Inbound::Invalid => InboundView::Invalid,
        }
    }
}

/// The values of a list of lines.
pub open spec fn inbound_of(lines: Seq<Inbound>) -> Seq<InboundView> {
    lines.map_values(|line: Inbound| line@)
}

/// The index of the first line feed, or the length where there is none.
pub open spec fn first_line_feed(bytes: Seq<u8>) -> nat {
    first_index(bytes, |b: u8| b == 0x0a)
}

/// The line that the bytes before a line feed hold: a carriage return at
/// their end is left out, and the rest is read as UTF-8.
pub open spec fn line_of(raw: Seq<u8>) -> InboundView {
    let body = if raw.len() > 0 && raw.last() == 0x0d {
        raw.drop_last()
    } else {
        raw
    };
    if valid_utf8(body) {
        InboundView::Line(decode_utf8(body))
    } else {
        InboundView::Invalid
    }
}

/// The line that the bytes at the end of the stream hold, which no line
/// feed follows: they are read as UTF-8 as they are.
pub open spec fn last_line_of(raw: Seq<u8>) -> InboundView {
    if valid_utf8(raw) {
        InboundView::Line(decode_utf8(raw))
    } else {
        InboundView::Invalid
    }
}

/// The lines that the bytes hold, in order.
pub open spec fn framed_lines(bytes: Seq<u8>) -> Seq<InboundView>
    decreases bytes.len(),
{
    let at = first_line_feed(bytes) as int;
    if at >= bytes.len() {
        Seq::empty()
    } else {
        seq![line_of(bytes.take(at))] + framed_lines(bytes.skip(at + 1))
    }
}

/// What follows the last line feed: the beginning of a line that is not
/// complete yet.
pub open spec fn framed_rest(bytes: Seq<u8>) -> Seq<u8>
    decreases bytes.len(),
{
    let at = first_line_feed(bytes) as int;
    if at >= bytes.len() {
        bytes
    } else {
        framed_rest(bytes.skip(at + 1))
    }
}

/// `String::from_utf8` makes a string of the bytes where they are UTF-8, and
/// reports an error where they are not. The string's bytes are those given.
#[verifier::external_body]
fn utf8_text(bytes: Vec<u8>) -> (text: Option<String>)
    ensures
        match text {
            Some(t) => valid_utf8(bytes@) && encode_utf8(t@) == bytes@,
            None => !valid_utf8(bytes@),
        },
{
    String::from_utf8(bytes).ok()
}

/// What is left of a line that is not complete: it holds no line feed.
pub proof fn lemma_rest_has_no_line_feed(bytes: Seq<u8>)
    ensures
        first_line_feed(framed_rest(bytes)) == framed_rest(bytes).len(),
        framed_rest(bytes).len() <= bytes.len(),
    decreases bytes.len(),
{
    lemma_first_index(bytes, |b: u8| b == 0x0a);
    let at = first_line_feed(bytes) as int;
    if at < bytes.len() {
        lemma_rest_has_no_line_feed(bytes.skip(at + 1));
    }
}

/// The first line feed of two pieces in a row is that of the first piece,
/// where it has one.
proof fn lemma_first_line_feed_of_concat(first: Seq<u8>, second: Seq<u8>)
    ensures
        first_line_feed(first) < first.len() ==> first_line_feed(first + second)
            == first_line_feed(first),
        first_line_feed(first) >= first.len() ==> first_line_feed(first + second) == first.len()
            + first_line_feed(second),
{
    let p = |b: u8| b == 0x0a;
    lemma_first_index(first, p);
    lemma_first_index(second, p);
    let whole = first + second;
    if first_line_feed(first) < first.len() {
        let k = first_line_feed(first) as int;
        lemma_first_index_is(whole, p, k);
    } else {
        let k = (first.len() + first_line_feed(second)) as int;
        lemma_first_index_is(whole, p, k);
    }
}

/// How the stream is cut into reads makes no difference: the lines of two
/// pieces in a row are the lines of the first piece, and then the lines of
/// what that left over followed by the second piece.
pub proof fn lemma_framing_ignores_cuts(first: Seq<u8>, second: Seq<u8>)
    ensures
        framed_lines(first + second) == framed_lines(first) + framed_lines(
            framed_rest(first) + second,
        ),
        framed_rest(first + second) == framed_rest(framed_rest(first) + second),
    decreases first.len(),
{
    lemma_first_index(first, |b: u8| b == 0x0a);
    lemma_first_line_feed_of_concat(first, second);
    let at = first_line_feed(first) as int;
    if at < first.len() {
        let whole = first + second;
        assert(whole.take(at) =~= first.take(at));
        assert(whole.skip(at + 1) =~= first.skip(at + 1) + second);
        lemma_framing_ignores_cuts(first.skip(at + 1), second);
    }
}

/// The framer of one connection.
pub struct Framer {
    /// The bytes received after the last line feed.
    pending: Vec<u8>,
}

impl View for Framer {
    type V = Seq<u8>;

    closed spec fn view(&self) -> Seq<u8> {
        self.pending@
    }
}

/// A copy of `bytes[from..to]`.
fn copy_bytes(bytes: &Vec<u8>, from: usize, to: usize) -> (out: Vec<u8>)
    requires
        from <= to <= bytes.len(),
    ensures
        out@ == bytes@.subrange(from as int, to as int),
{
    let mut out: Vec<u8> = Vec::new();
    let mut i: usize = from;
    while i < to
        invariant
            from <= i <= to <= bytes.len(),
            out@ == bytes@.subrange(from as int, i as int),
        decreases to - i,
    {
        out.push(bytes[i]);
        i += 1;
    }
    out
}

/// Reads bytes as a line.
fn read_text(body: Vec<u8>) -> (line: Inbound)
    ensures
        line@ == last_line_of(body@),
{
    match utf8_text(body) {
        Some(text) => {
            proof {
                vstd::utf8::encode_utf8_decode_utf8(text@);
            }
            Inbound::Line(text)
        },
        None => Inbound::Invalid,
    }
}

/// Reads the bytes before a line feed as a line.
fn read_line(raw: Vec<u8>) -> (line: Inbound)
    ensures
        line@ == line_of(raw@),
{
    let mut body = raw;
    if body.len() > 0 && body[body.len() - 1] == 0x0d {
        body.pop();
    }
    match utf8_text(body) {
        Some(text) => {
            proof {
                vstd::utf8::encode_utf8_decode_utf8(text@);
            }
            Inbound::Line(text)
        },
        None => Inbound::Invalid,
    }
}

impl Framer {
    /// The framer of a stream of which nothing was read yet.
    pub fn new() -> (framer: Framer)
        ensures
            framer@ == Seq::<u8>::empty(),
    {
        Framer { pending: Vec::new() }
    }

    /// Takes the bytes of one read, and hands back the lines that are now
    /// complete. What follows the last line feed is kept for the next read.
    pub fn push(&mut self, chunk: &[u8]) -> (lines: Vec<Inbound>)
        ensures
            inbound_of(lines@) == framed_lines(old(self)@ + chunk@),
            final(self)@ == framed_rest(old(self)@ + chunk@),
    {
        let ghost all = self.pending@ + chunk@;
        let mut k: usize = 0;
        while k < chunk.len()
            invariant
                k <= chunk.len(),
                self.pending@ == old(self).pending@ + chunk@.take(k as int),
            decreases chunk.len() - k,
        {
            self.pending.push(chunk[k]);
            k += 1;
        }
        let n = self.pending.len();
        let mut lines: Vec<Inbound> = Vec::new();
        let mut start: usize = 0;
        assert(all.skip(0) == all);
        loop
            invariant
                start <= n == self.pending.len(),
                self.pending@ == all,
                framed_lines(all) == inbound_of(lines@) + framed_lines(all.skip(start as int)),
                framed_rest(all) == framed_rest(all.skip(start as int)),
            ensures
                start <= n == self.pending.len(),
                self.pending@ == all,
                framed_lines(all) == inbound_of(lines@),
                framed_rest(all) == all.skip(start as int),
            decreases n - start,
        {
            let ghost rest = all.skip(start as int);
            let mut at: usize = start;
            while at < n && self.pending[at] != 0x0a
                invariant
                    start <= at <= n == self.pending.len(),
                    self.pending@ == all,
                    forall|j: int| start <= j < at ==> all[j] != 0x0a,
                decreases n - at,
            {
                at += 1;
            }
            proof {
                let p = |b: u8| b == 0x0a;
                lemma_first_index_is(rest, p, at - start);
            }
            if at >= n {
                break;
            }
            let raw = copy_bytes(&self.pending, start, at);
            assert(rest.take(at - start) == all.subrange(start as int, at as int));
            assert(rest.skip(at - start + 1) == all.skip(at + 1));
            let line = read_line(raw);
            lines.push(line);
            start = at + 1;
        }
        let kept = copy_bytes(&self.pending, start, n);
        self.pending = kept;
        lines
    }

    /// At the end of the stream: the line that was not closed by a line
    /// feed, if there is one.
    pub fn finish(&mut self) -> (last: Option<Inbound>)
        ensures
            final(self)@ == Seq::<u8>::empty(),
            match last {
                Some(line) => old(self)@.len() > 0 && line@ == last_line_of(old(self)@),
                None => old(self)@.len() == 0,
            },
    {
        if self.pending.len() == 0 {
            return None;
        }
        let raw = copy_bytes(&self.pending, 0, self.pending.len());
        assert(self.pending@.subrange(0, self.pending.len() as int) == self.pending@);
        self.pending = Vec::new();
        Some(read_text(raw))
    }
}

/// What a line of input is to the connection: a line that cannot be read
/// ends it.
pub fn event_of(inbound: Inbound) -> (event: Event)
    ensures
        event@ == match inbound {
            Inbound::Line(text) => EventView::Line(text@),
            Inbound::Invalid => EventView::Disconnected,
        },
{
    match inbound {
        Inbound::Line(text) => Event::Line(text),
        Inbound::Invalid => Event::Disconnected,
    }
}

} // verus!
