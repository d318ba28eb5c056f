//! Framing of documents on the byte stream: every document is followed by a
//! fixed six-byte delimiter.

use crate::netconf::error::FramingError;
use crate::netconf::quotes::{lemma_unescaped_text, restored, unescape_quotes};
use crate::netconf::text::decode_text;
use crate::netconf::xml::Text;
use memmem::{Searcher, TwoWaySearcher};
use vstd::prelude::*;
use vstd::slice::{slice_subrange, slice_to_vec};
use vstd::string::*;
use vstd::utf8::*;

verus! {

/// The bytes `]]>]]>` that follow every document on the wire.
pub open spec fn delimiter() -> Seq<u8> {
    seq![0x5du8, 0x5du8, 0x3eu8, 0x5du8, 0x5du8, 0x3eu8]
}

/// The line feed that follows the delimiter of an outgoing document.
pub open spec fn line_feed() -> Seq<u8> {
    seq![0x0au8]
}

/// Whether `needle` stands in `haystack` starting at index `at`.
pub open spec fn occurs_at(haystack: Seq<u8>, needle: Seq<u8>, at: int) -> bool {
    &&& 0 <= at
    &&& at + needle.len() <= haystack.len()
    &&& haystack.subrange(at, at + needle.len()) == needle
}

/// Whether `at` is the leftmost index at which `needle` stands in `haystack`.
pub open spec fn is_first_occurrence(haystack: Seq<u8>, needle: Seq<u8>, at: int) -> bool {
    &&& occurs_at(haystack, needle, at)
    &&& forall|earlier: int| 0 <= earlier < at ==> !occurs_at(haystack, needle, earlier)
}

/// Whether `needle` stands nowhere in `haystack`.
pub open spec fn absent(haystack: Seq<u8>, needle: Seq<u8>) -> bool {
    forall|at: int| !occurs_at(haystack, needle, at)
}

/// The leftmost index at which `needle` stands in `haystack`, if it stands
/// there at all.
pub open spec fn first_occurrence(haystack: Seq<u8>, needle: Seq<u8>) -> Option<int> {
    if absent(haystack, needle) {
        None
    } else {
        Some(choose|at: int| is_first_occurrence(haystack, needle, at))
    }
}

/// The leftmost occurrence is unique, so knowing one index to be leftmost
/// fixes `first_occurrence`.
pub proof fn lemma_first_occurrence(haystack: Seq<u8>, needle: Seq<u8>, at: int)
    requires
        is_first_occurrence(haystack, needle, at),
    ensures
        first_occurrence(haystack, needle) == Some(at),
{
    let chosen = choose|i: int| is_first_occurrence(haystack, needle, i);
    assert(is_first_occurrence(haystack, needle, chosen));
    if chosen < at {
        assert(!occurs_at(haystack, needle, chosen));
    }
    if at < chosen {
        assert(!occurs_at(haystack, needle, at));
    }
}

/// A document as it goes on the wire: its bytes, the delimiter, a line feed.
pub open spec fn framed(document: Seq<u8>) -> Seq<u8> {
    document + delimiter() + line_feed()
}

/// What the bytes received so far hold.
pub enum Deframed {
    /// No delimiter has arrived yet.
    Incomplete,
    /// A document, and the bytes that came after its delimiter.
    Document { text: Text, rest: Seq<u8> },
    /// Bytes before a delimiter that are not valid UTF-8, and what came after.
    Garbled { rest: Seq<u8> },
}

/// Splits the bytes received so far at the first delimiter.
pub open spec fn deframed(received: Seq<u8>) -> Deframed {
    match first_occurrence(received, delimiter()) {
        None => Deframed::Incomplete,
        Some(at) => {
            let body = received.take(at);
            let rest = received.skip(at + 6);
            if valid_utf8(body) {
                Deframed::Document { text: decode_utf8(body), rest }
            } else {
                Deframed::Garbled { rest }
            }
        },
    }
}

/// The bytes `]]>`: the first half of the delimiter, and its second half too.
pub open spec fn half_delimiter() -> Seq<u8> {
    seq![0x5du8, 0x5du8, 0x3eu8]
}

/// Whether `bytes` ends in `suffix`.
pub open spec fn ends_with(bytes: Seq<u8>, suffix: Seq<u8>) -> bool {
    occurs_at(bytes, suffix, bytes.len() - suffix.len())
}

/// No delimiter starts inside a framed document that does not hold the
/// delimiter and does not end in `]]>`.
proof fn lemma_no_early_delimiter(body: Seq<u8>, earlier: int)
    requires
        absent(body, delimiter()),
        !ends_with(body, half_delimiter()),
        0 <= earlier < body.len(),
    ensures
        !occurs_at(framed(body), delimiter(), earlier),
{
    let wire = framed(body);
    let size = body.len() as int;
    if occurs_at(wire, delimiter(), earlier) {
        let window = wire.subrange(earlier, earlier + 6);
        assert(window == delimiter());
        assert(window[0] == wire[earlier]);
        assert(window[1] == wire[earlier + 1]);
        assert(window[2] == wire[earlier + 2]);
        assert(window[3] == wire[earlier + 3]);
        assert(window[4] == wire[earlier + 4]);
        assert(window[5] == wire[earlier + 5]);
        if earlier + 6 <= size {
            assert(body.subrange(earlier, earlier + 6) =~= window);
            assert(occurs_at(body, delimiter(), earlier));
        } else if earlier + 3 == size {
            assert(body.subrange(size - 3, size) =~= half_delimiter());
            assert(ends_with(body, half_delimiter()));
        } else {
            assert(wire[size] == 0x5du8);
            assert(wire[size + 1] == 0x5du8);
            assert(wire[size + 2] == 0x3eu8);
            assert(wire[size + 3] == 0x5du8);
            assert(wire[size + 4] == 0x5du8);
        }
    }
}

/// In a framed document that does not hold the delimiter and does not end
/// in `]]>`, the first delimiter is the one that the framing added.
pub proof fn lemma_delimiter_follows(body: Seq<u8>)
    requires
        absent(body, delimiter()),
        !ends_with(body, half_delimiter()),
    ensures
        first_occurrence(framed(body), delimiter()) == Some(body.len() as int),
        framed(body).take(body.len() as int) == body,
        framed(body).skip(body.len() as int + 6) == line_feed(),
{
    let wire = framed(body);
    let size = body.len() as int;
    assert(wire.subrange(size, size + 6) =~= delimiter());
    assert forall|earlier: int| 0 <= earlier < size implies !occurs_at(
        wire,
        delimiter(),
        earlier,
    ) by {
        lemma_no_early_delimiter(body, earlier);
    }
    lemma_first_occurrence(wire, delimiter(), size);
    assert(wire.take(size) =~= body);
    assert(wire.skip(size + 6) =~= line_feed());
}

/// A framed document that ends in `]]>` is cut short: its last three bytes
/// and the first half of the delimiter that follows make a delimiter.
pub proof fn lemma_half_delimiter_cuts(body: Seq<u8>)
    requires
        absent(body, delimiter()),
        ends_with(body, half_delimiter()),
    ensures
        first_occurrence(framed(body), delimiter()) == Some(body.len() - 3),
{
    let wire = framed(body);
    let size = body.len() as int;
    let tail = body.subrange(size - 3, size);
    assert(tail == half_delimiter());
    assert(tail[0] == body[size - 3] && tail[1] == body[size - 2] && tail[2] == body[size - 1]);
    assert(wire.subrange(size - 3, size + 3) =~= delimiter());
    assert forall|earlier: int| 0 <= earlier < size - 3 implies !occurs_at(
        wire,
        delimiter(),
        earlier,
    ) by {
        if occurs_at(wire, delimiter(), earlier) {
            let window = wire.subrange(earlier, earlier + 6);
            assert(window == delimiter());
            assert(window[1] == wire[earlier + 1]);
            assert(window[2] == wire[earlier + 2]);
            assert(window[3] == wire[earlier + 3]);
            assert(window[4] == wire[earlier + 4]);
            if earlier + 6 <= size {
                assert(body.subrange(earlier, earlier + 6) =~= window);
                assert(occurs_at(body, delimiter(), earlier));
            }
        }
    }
    lemma_first_occurrence(wire, delimiter(), size - 3);
}

/// Framing a document and reading the framed bytes back gives the document
/// again, and leaves the line feed that followed the delimiter.
///
/// This holds of every document that does not hold the delimiter and does
/// not end in `]]>`. With such an ending the delimiter would seem to start
/// three bytes early, inside the document.
pub proof fn lemma_framing_round_trip(document: Text)
    requires
        absent(encode_utf8(document), delimiter()),
        !ends_with(encode_utf8(document), half_delimiter()),
    ensures
        deframed(framed(encode_utf8(document))) == (Deframed::Document {
            text: document,
            rest: line_feed(),
        }),
{
    let body = encode_utf8(document);
    lemma_delimiter_follows(body);
    encode_utf8_valid_utf8(document);
    encode_utf8_decode_utf8(document);
}

/// What becomes of a read of the stream that returned `burst` when `pending`
/// had arrived before: the stream has closed if the read returned nothing,
/// and that is an error if no delimiter has arrived.
pub open spec fn received(pending: Seq<u8>, burst: Seq<u8>) -> Result<(), FramingError> {
    if burst.len() == 0 && deframed(pending) is Incomplete {
        Err(FramingError::StreamClosed)
    } else {
        Ok(())
    }
}

/// Searches `haystack` for `needle` with `memmem`: a `TwoWaySearcher` made
/// by `TwoWaySearcher::new` for the needle, and its `Searcher::search_in`.
///
/// Not proved, taken from `memmem`: the search reports the start of the
/// leftmost match, and `None` only when `needle` stands nowhere in
/// `haystack`. An empty needle is found at index 0.
#[verifier::external_body]
fn search(haystack: &[u8], needle: &[u8]) -> (found: Option<usize>)
    ensures
        match found {
            Some(at) => is_first_occurrence(haystack@, needle@, at as int),
            None => absent(haystack@, needle@),
        },
{
    TwoWaySearcher::new(needle).search_in(haystack)
}

/// Finds the first delimiter in `bytes`.
pub fn find_delimiter(bytes: &[u8]) -> (found: Option<usize>)
    ensures
        match found {
            Some(at) => is_first_occurrence(bytes@, delimiter(), at as int) && first_occurrence(
                bytes@,
                delimiter(),
            ) == Some(at as int),
            None => first_occurrence(bytes@, delimiter()) is None,
        },
{
    let needle: [u8; 6] = [0x5d, 0x5d, 0x3e, 0x5d, 0x5d, 0x3e];
    assert(needle@ =~= delimiter());
    let found = search(bytes, &needle);
    proof {
        if let Some(at) = found {
            lemma_first_occurrence(bytes@, delimiter(), at as int);
        }
    }
    found
}

/// Appends `bytes` to `out`.
fn extend(out: &mut Vec<u8>, bytes: &[u8])
    ensures
        final(out)@ == old(out)@ + bytes@,
{
    let mut at: usize = 0;
    while at < bytes.len()
        invariant
            at <= bytes@.len(),
            out@ == old(out)@ + bytes@.take(at as int),
        decreases bytes@.len() - at,
    {
        out.push(bytes[at]);
        at += 1;
        assert(bytes@.take(at as int) =~= bytes@.take(at - 1).push(bytes@[at - 1]));
    }
    assert(bytes@.take(at as int) =~= bytes@);
}

/// Takes the first `count` bytes out of `buffer`. The buffer keeps its
/// storage: the bytes that stay move to the front.
fn drop_front(buffer: &mut Vec<u8>, count: usize)
    requires
        count <= old(buffer)@.len(),
    ensures
        final(buffer)@ == old(buffer)@.skip(count as int),
{
    let total: usize = buffer.len();
    let mut from: usize = count;
    let mut to: usize = 0;
    while from < total
        invariant
            buffer@.len() == total,
            old(buffer)@.len() == total,
            count <= from <= total,
            to == from - count,
            forall|i: int| 0 <= i < to ==> buffer@[i] == old(buffer)@[i + count],
            forall|i: int| from <= i < total ==> buffer@[i] == old(buffer)@[i],
        decreases total - from,
    {
        let byte: u8 = buffer[from];
        buffer.set(to, byte);
        from += 1;
        to += 1;
    }
    buffer.truncate(to);
    assert(buffer@ =~= old(buffer)@.skip(count as int));
}

/// Frames the bytes of a document for the wire.
pub fn frame_bytes(document: &[u8]) -> (wire: Vec<u8>)
    ensures
        wire@ == framed(document@),
{
    let mut wire: Vec<u8> = Vec::new();
    extend(&mut wire, document);
    let tail: [u8; 7] = [0x5d, 0x5d, 0x3e, 0x5d, 0x5d, 0x3e, 0x0a];
    assert(tail@ =~= delimiter() + line_feed());
    extend(&mut wire, &tail);
    assert(wire@ =~= framed(document@));
    wire
}

/// Frames a document for the wire: its UTF-8 bytes, the delimiter and a line
/// feed.
pub fn frame(document: &str) -> (wire: Vec<u8>)
    ensures
        wire@ == framed(encode_utf8(document@)),
{
    frame_bytes(document.as_bytes())
}

/// Frames a request document for the wire. Double quotes that the encoder
/// wrote as `&quot;` go out as literal quotes.
pub fn frame_rpc(document: &str) -> (wire: Vec<u8>)
    ensures
        wire@ == framed(encode_utf8(restored(document@))),
{
    let plain = unescape_quotes(document.as_bytes());
    proof {
        lemma_unescaped_text(document@);
    }
    frame_bytes(plain.as_slice())
}

/// The receiving side of the framing: the bytes that have arrived and that no
/// document has consumed yet.
pub struct Framer {
    inbox: Vec<u8>,
}

impl Framer {
    /// The bytes that have arrived and that no document has consumed yet.
    pub closed spec fn pending(&self) -> Seq<u8> {
        self.inbox@
    }

    /// A framer that has received nothing.
    pub fn new() -> (framer: Framer)
        ensures
            framer.pending() == Seq::<u8>::empty(),
    {
        Framer { inbox: Vec::new() }
    }

    /// Takes in what one read of the stream returned. A read that returns no
    /// bytes means that the stream has closed: that is an error unless a
    /// delimiter has arrived and a document is still there to be read.
    pub fn receive(&mut self, burst: &[u8]) -> (taken: Result<(), FramingError>)
        ensures
            taken == received(old(self).pending(), burst@),
            final(self).pending() == old(self).pending() + burst@,
    {
        if burst.len() == 0 {
            assert(self.inbox@ + burst@ =~= self.inbox@);
            return match find_delimiter(self.inbox.as_slice()) {
                Some(_) => Ok(()),
                None => Err(FramingError::StreamClosed),
            };
        }
        extend(&mut self.inbox, burst);
        Ok(())
    }

    /// Takes the next document out of the bytes received, if its delimiter
    /// has arrived. The bytes after the delimiter stay for the next call.
    pub fn read(&mut self) -> (document: Result<Option<String>, FramingError>)
        ensures
            match deframed(old(self).pending()) {
                Deframed::Incomplete => document == Ok::<Option<String>, FramingError>(None)
                    && final(self).pending() == old(self).pending(),
                Deframed::Document { text, rest } => document matches Ok(Some(read)) && read@
                    == text && final(self).pending() == rest,
                Deframed::Garbled { rest } => document == Err::<Option<String>, FramingError>(
                    FramingError::InvalidUtf8,
                ) && final(self).pending() == rest,
            },
    {
        let found = find_delimiter(self.inbox.as_slice());
        match found {
            None => Ok(None),
            Some(at) => {
                let size: usize = self.inbox.len();
                assert(at + 6 <= size) by {
                    assert(delimiter().len() == 6);
                }
                let body = slice_to_vec(slice_subrange(self.inbox.as_slice(), 0, at));
                drop_front(&mut self.inbox, at + 6);
                match decode_text(body) {
                    Some(text) => Ok(Some(text)),
                    None => Err(FramingError::InvalidUtf8),
                }
            },
        }
    }
}

} // verus!
