//! Double quotes in outgoing documents.
//!
//! A generic encoder writes a double quote in text as the entity `&quot;`.
//! The device wants literal quotes in the text of a command, so every such
//! entity is turned back into a quote before a request is framed.

use crate::netconf::framing::{absent, occurs_at};
use crate::netconf::xml::Text;
use vstd::prelude::*;
use vstd::utf8::*;

verus! {

/// The characters `&quot;`.
pub open spec fn entity_text() -> Text {
    seq!['&', 'q', 'u', 'o', 't', ';']
}

/// Whether a text starts with `&quot;`.
pub open spec fn starts_with_entity(text: Text) -> bool {
    text.len() >= 6 && text.take(6) == entity_text()
}

/// The text with every `&quot;` replaced by a double quote, scanning from
/// the left.
pub open spec fn restored(text: Text) -> Text
    decreases text.len(),
{
    if text.len() == 0 {
        text
    } else if starts_with_entity(text) {
        seq!['"'] + restored(text.skip(6))
    } else {
        seq![text[0]] + restored(text.skip(1))
    }
}

/// The bytes `&quot;`, the entity that a generic encoder writes for a double
/// quote.
pub open spec fn quote_entity() -> Seq<u8> {
    seq![0x26u8, 0x71u8, 0x75u8, 0x6fu8, 0x74u8, 0x3bu8]
}

/// The byte `"`.
pub open spec fn quote() -> u8 {
    0x22u8
}

/// The bytes with every `&quot;` replaced by a double quote, scanning from
/// the left.
pub open spec fn unescaped(bytes: Seq<u8>) -> Seq<u8>
    decreases bytes.len(),
{
    if bytes.len() == 0 {
        bytes
    } else if occurs_at(bytes, quote_entity(), 0) {
        seq![quote()] + unescaped(bytes.skip(6))
    } else {
        seq![bytes[0]] + unescaped(bytes.skip(1))
    }
}

/// Where the unescaped bytes start with a byte that is no double quote, the
/// bytes themselves start with it, and the rest is unescaped by itself.
proof fn lemma_unescaped_head(bytes: Seq<u8>)
    requires
        unescaped(bytes).len() > 0,
        unescaped(bytes)[0] != quote(),
    ensures
        bytes.len() > 0,
        bytes[0] == unescaped(bytes)[0],
        unescaped(bytes).skip(1) == unescaped(bytes.skip(1)),
{
    if occurs_at(bytes, quote_entity(), 0) {
        assert(unescaped(bytes)[0] == quote());
    } else {
        assert(unescaped(bytes).skip(1) =~= unescaped(bytes.skip(1)));
    }
}

/// No `&quot;` is left in unescaped bytes: every double quote that the
/// encoder wrote as an entity goes out as a literal quote.
pub proof fn lemma_no_entity_left(bytes: Seq<u8>, at: int)
    ensures
        !occurs_at(unescaped(bytes), quote_entity(), at),
    decreases bytes.len(),
{
    let plain = unescaped(bytes);
    if occurs_at(plain, quote_entity(), at) {
        let window = plain.subrange(at, at + 6);
        assert(window == quote_entity());
        assert(window[0] == plain[at]);
        assert(window[1] == plain[at + 1]);
        assert(window[2] == plain[at + 2]);
        assert(window[3] == plain[at + 3]);
        assert(window[4] == plain[at + 4]);
        assert(window[5] == plain[at + 5]);
        let rest = if occurs_at(bytes, quote_entity(), 0) {
            bytes.skip(6)
        } else {
            bytes.skip(1)
        };
        assert(plain.skip(1) =~= unescaped(rest));
        if at > 0 {
            assert(unescaped(rest).subrange(at - 1, at + 5) =~= window);
            lemma_no_entity_left(rest, at - 1);
        } else {
            assert(!occurs_at(bytes, quote_entity(), 0));
            let first = bytes.skip(1);
            assert(unescaped(first)[0] == plain[1]);
            lemma_unescaped_head(first);
            let second = first.skip(1);
            assert(unescaped(second)[0] == plain[2]);
            lemma_unescaped_head(second);
            let third = second.skip(1);
            assert(unescaped(third)[0] == plain[3]);
            lemma_unescaped_head(third);
            let fourth = third.skip(1);
            assert(unescaped(fourth)[0] == plain[4]);
            lemma_unescaped_head(fourth);
            let fifth = fourth.skip(1);
            assert(unescaped(fifth)[0] == plain[5]);
            lemma_unescaped_head(fifth);
            assert(bytes.subrange(0, 6) =~= quote_entity());
        }
    }
}

/// Setting a high bit gives a byte with the high bit set.
proof fn lemma_high_bytes(low: u8)
    by (bit_vector)
    ensures
        0x80u8 | low >= 0x80u8,
        0xC0u8 | low >= 0x80u8,
        0xE0u8 | low >= 0x80u8,
        0xF0u8 | low >= 0x80u8,
{
}

/// The encoding of a character below 0x80 is the one byte of that value;
/// the encoding of any other character is two to four bytes, none below 0x80.
pub proof fn lemma_scalar_bytes(c: char)
    ensures
        (c as u32) < 0x80 ==> encode_scalar(c as u32) == seq![c as u8] && (c as u8) as char == c,
        (c as u32) >= 0x80 ==> {
            &&& 2 <= encode_scalar(c as u32).len() <= 4
            &&& forall|i: int|
                0 <= i < encode_scalar(c as u32).len() ==> #[trigger] encode_scalar(c as u32)[i]
                    >= 0x80
        },
{
    let scalar = c as u32;
    char_is_scalar(c);
    if scalar < 0x80 {
        assert(scalar as u8 == leading_byte_width_1(scalar)) by (bit_vector)
            requires
                scalar < 0x80,
        ;
    } else {
        lemma_high_bytes(((scalar >> 6) & 0x1F) as u8);
        lemma_high_bytes(((scalar >> 12) & 0x0F) as u8);
        lemma_high_bytes(((scalar >> 18) & 0x7) as u8);
        lemma_high_bytes((scalar & 0x3F) as u8);
        lemma_high_bytes(((scalar >> 6) & 0x3F) as u8);
        lemma_high_bytes(((scalar >> 12) & 0x3F) as u8);
    }
}

/// The encoding of a text is that of its first character, then that of the
/// rest.
pub proof fn lemma_encode_head(text: Text)
    requires
        text.len() > 0,
    ensures
        encode_utf8(text) == encode_scalar(text[0] as u32) + encode_utf8(text.skip(1)),
{
    assert(text.drop_first() =~= text.skip(1));
}

/// Where the encoding of a text starts with a byte below 0x80, the text
/// starts with the character of that value.
proof fn lemma_ascii_head(text: Text, byte: u8)
    requires
        encode_utf8(text).len() > 0,
        encode_utf8(text)[0] == byte,
        byte < 0x80,
    ensures
        text.len() > 0,
        text[0] == byte as char,
        encode_utf8(text).skip(1) == encode_utf8(text.skip(1)),
{
    if text.len() == 0 {
        assert(encode_utf8(text).len() == 0);
    }
    lemma_encode_head(text);
    lemma_scalar_bytes(text[0]);
    let first = encode_scalar(text[0] as u32);
    assert(encode_utf8(text)[0] == first[0]);
    assert(first.len() == 1);
    assert(encode_utf8(text).skip(1) =~= encode_utf8(text.skip(1)));
}

/// A byte that is not below 0x80 starts no entity: it is passed over.
proof fn lemma_high_byte_stays(bytes: Seq<u8>)
    requires
        bytes.len() > 0,
        bytes[0] >= 0x80,
    ensures
        unescaped(bytes) == seq![bytes[0]] + unescaped(bytes.skip(1)),
{
    if occurs_at(bytes, quote_entity(), 0) {
        assert(bytes.subrange(0, 6)[0] == bytes[0]);
    }
}

/// The bytes of a character that is not below 0x80 are passed over.
proof fn lemma_high_scalar_stays(c: char, tail: Seq<u8>)
    requires
        (c as u32) >= 0x80,
    ensures
        unescaped(encode_scalar(c as u32) + tail) == encode_scalar(c as u32) + unescaped(tail),
{
    lemma_scalar_bytes(c);
    let head = encode_scalar(c as u32);
    let all = head + tail;
    lemma_high_byte_stays(all);
    let second = all.skip(1);
    assert(second[0] == head[1]);
    lemma_high_byte_stays(second);
    let third = second.skip(1);
    if head.len() == 2 {
        assert(third =~= tail);
    } else {
        assert(third[0] == head[2]);
        lemma_high_byte_stays(third);
        let fourth = third.skip(1);
        if head.len() == 3 {
            assert(fourth =~= tail);
        } else {
            assert(fourth[0] == head[3]);
            lemma_high_byte_stays(fourth);
            assert(fourth.skip(1) =~= tail);
        }
    }
    assert(unescaped(all) =~= head + unescaped(tail));
}

/// Where the encoding of a text starts with the bytes `&quot;`, the text
/// starts with the characters `&quot;`.
proof fn lemma_entity_in_text(text: Text)
    requires
        occurs_at(encode_utf8(text), quote_entity(), 0),
    ensures
        starts_with_entity(text),
        encode_utf8(text).skip(6) == encode_utf8(text.skip(6)),
{
    let bytes = encode_utf8(text);
    let window = bytes.subrange(0, 6);
    assert(window == quote_entity());
    assert(window[0] == bytes[0]);
    assert(window[1] == bytes[1]);
    assert(window[2] == bytes[2]);
    assert(window[3] == bytes[3]);
    assert(window[4] == bytes[4]);
    assert(window[5] == bytes[5]);
    lemma_ascii_head(text, 0x26);
    let t1 = text.skip(1);
    assert(encode_utf8(t1)[0] == bytes[1]);
    lemma_ascii_head(t1, 0x71);
    let t2 = t1.skip(1);
    assert(encode_utf8(t2)[0] == bytes[2]);
    lemma_ascii_head(t2, 0x75);
    let t3 = t2.skip(1);
    assert(encode_utf8(t3)[0] == bytes[3]);
    lemma_ascii_head(t3, 0x6f);
    let t4 = t3.skip(1);
    assert(encode_utf8(t4)[0] == bytes[4]);
    lemma_ascii_head(t4, 0x74);
    let t5 = t4.skip(1);
    assert(encode_utf8(t5)[0] == bytes[5]);
    lemma_ascii_head(t5, 0x3b);
    assert(t5.skip(1) =~= text.skip(6));
    assert(encode_utf8(t5).skip(1) =~= bytes.skip(6));
    assert(text[0] == '&');
    assert(text[1] == 'q');
    assert(text[2] == 'u');
    assert(text[3] == 'o');
    assert(text[4] == 't');
    assert(text[5] == ';');
    assert(text.take(6) =~= entity_text());
}

/// Where a text starts with the characters `&quot;`, its encoding starts
/// with the bytes `&quot;`.
proof fn lemma_entity_in_bytes(text: Text)
    requires
        starts_with_entity(text),
    ensures
        occurs_at(encode_utf8(text), quote_entity(), 0),
        encode_utf8(text).skip(6) == encode_utf8(text.skip(6)),
{
    let head = text.take(6);
    assert(head[0] == text[0] && head[1] == text[1] && head[2] == text[2]);
    assert(head[3] == text[3] && head[4] == text[4] && head[5] == text[5]);
    let t1 = text.skip(1);
    let t2 = t1.skip(1);
    let t3 = t2.skip(1);
    let t4 = t3.skip(1);
    let t5 = t4.skip(1);
    lemma_encode_head(text);
    lemma_scalar_bytes(text[0]);
    lemma_encode_head(t1);
    lemma_scalar_bytes(t1[0]);
    lemma_encode_head(t2);
    lemma_scalar_bytes(t2[0]);
    lemma_encode_head(t3);
    lemma_scalar_bytes(t3[0]);
    lemma_encode_head(t4);
    lemma_scalar_bytes(t4[0]);
    lemma_encode_head(t5);
    lemma_scalar_bytes(t5[0]);
    assert(t5.skip(1) =~= text.skip(6));
    let bytes = encode_utf8(text);
    assert(bytes =~= quote_entity() + encode_utf8(text.skip(6)));
    assert(bytes.subrange(0, 6) =~= quote_entity());
    assert(bytes.skip(6) =~= encode_utf8(text.skip(6)));
}

/// Replacing the entity in the bytes of a text gives the bytes of the text
/// with the entity replaced: the bytes are replaced as the characters are.
pub proof fn lemma_unescaped_text(text: Text)
    ensures
        unescaped(encode_utf8(text)) == encode_utf8(restored(text)),
    decreases text.len(),
{
    let bytes = encode_utf8(text);
    if text.len() == 0 {
    } else if starts_with_entity(text) {
        lemma_entity_in_bytes(text);
        lemma_unescaped_text(text.skip(6));
        let rest = restored(text.skip(6));
        lemma_encode_head(seq!['"'] + rest);
        lemma_scalar_bytes('"');
        assert((seq!['"'] + rest).skip(1) =~= rest);
        assert(unescaped(bytes) =~= encode_utf8(restored(text)));
    } else {
        if occurs_at(bytes, quote_entity(), 0) {
            lemma_entity_in_text(text);
        }
        let c = text[0];
        let rest = restored(text.skip(1));
        lemma_encode_head(text);
        lemma_scalar_bytes(c);
        lemma_unescaped_text(text.skip(1));
        lemma_encode_head(seq![c] + rest);
        assert((seq![c] + rest).skip(1) =~= rest);
        if (c as u32) >= 0x80 {
            lemma_high_scalar_stays(c, encode_utf8(text.skip(1)));
        } else {
            assert(bytes.skip(1) =~= encode_utf8(text.skip(1)));
        }
        assert(unescaped(bytes) =~= encode_utf8(restored(text)));
    }
}

/// Whether the entity `&quot;` stands in `bytes` at index `at`.
fn entity_at(bytes: &[u8], at: usize) -> (found: bool)
    requires
        at <= bytes@.len(),
    ensures
        found == occurs_at(bytes@.skip(at as int), quote_entity(), 0),
{
    let ghost tail = bytes@.skip(at as int);
    if bytes.len() - at < 6 {
        return false;
    }
    let found = bytes[at] == 0x26 && bytes[at + 1] == 0x71 && bytes[at + 2] == 0x75 && bytes[at
        + 3] == 0x6f && bytes[at + 4] == 0x74 && bytes[at + 5] == 0x3b;
    proof {
        let window = tail.subrange(0, 6);
        if found {
            assert(window =~= quote_entity());
        } else {
            assert(window[0] == bytes@[at as int]);
            assert(window[1] == bytes@[at + 1]);
            assert(window[2] == bytes@[at + 2]);
            assert(window[3] == bytes@[at + 3]);
            assert(window[4] == bytes@[at + 4]);
            assert(window[5] == bytes@[at + 5]);
        }
    }
    found
}

/// Replaces every `&quot;` in `bytes` by a double quote.
pub fn unescape_quotes(bytes: &[u8]) -> (plain: Vec<u8>)
    ensures
        plain@ == unescaped(bytes@),
        absent(plain@, quote_entity()),
{
    let mut plain: Vec<u8> = Vec::new();
    let mut at: usize = 0;
    assert(bytes@.skip(0) =~= bytes@);
    assert(plain@ + unescaped(bytes@) =~= unescaped(bytes@));
    while at < bytes.len()
        invariant
            at <= bytes@.len(),
            unescaped(bytes@) == plain@ + unescaped(bytes@.skip(at as int)),
        decreases bytes@.len() - at,
    {
        let ghost tail = bytes@.skip(at as int);
        let ghost before = plain@;
        if entity_at(bytes, at) {
            plain.push(0x22);
            at += 6;
            assert(tail.skip(6) =~= bytes@.skip(at as int));
            assert(plain@ + unescaped(tail.skip(6)) =~= before + (seq![quote()] + unescaped(
                tail.skip(6),
            )));
        } else {
            plain.push(bytes[at]);
            at += 1;
            assert(tail.skip(1) =~= bytes@.skip(at as int));
            assert(plain@ + unescaped(tail.skip(1)) =~= before + (seq![tail[0]] + unescaped(
                tail.skip(1),
            )));
        }
    }
    assert(plain@ + unescaped(bytes@.skip(at as int)) =~= plain@);
    assert forall|i: int| !occurs_at(plain@, quote_entity(), i) by {
        lemma_no_entity_left(bytes@, i);
    }
    plain
}

} // verus!
