//! Cutting a piece out of a source text by byte offsets.

use vstd::prelude::*;
use vstd::string::*;
use vstd::utf8::*;

verus! {

/// Whether `b` is the UTF-8 encoding of an ASCII character.
pub open spec fn is_ascii_byte(b: u8) -> bool {
    b < 0x80
}

/// In well-formed UTF-8 a character starts at an ASCII byte, and the next
/// one starts right behind it.
pub proof fn lemma_boundaries_at_ascii(bytes: Seq<u8>, i: int)
    requires
        valid_utf8(bytes),
        0 <= i < bytes.len(),
        is_ascii_byte(bytes[i]),
    ensures
        is_char_boundary(bytes, i),
        is_char_boundary(bytes, i + 1),
{
    is_char_boundary_iff_not_is_continuation_byte(bytes, i);
    if i + 1 == bytes.len() {
        is_char_boundary_start_end_of_seq(bytes);
    } else {
        valid_utf8_split(bytes, i);
        let tail = bytes.subrange(i, bytes.len() as int);
        assert(valid_utf8(tail));
        assert(tail[0] == bytes[i]);
        assert(valid_first_scalar(tail) && valid_utf8(pop_first_scalar(tail)));
        assert(length_of_first_scalar(tail) == 1);
        let rest = pop_first_scalar(tail);
        assert(rest =~= bytes.subrange(i + 1, bytes.len() as int));
        assert(valid_first_scalar(rest));
        assert(rest[0] == bytes[i + 1]);
        assert(!is_continuation_byte(bytes[i + 1]));
        is_char_boundary_iff_not_is_continuation_byte(bytes, i + 1);
    }
}

/// The text whose bytes are those of `source` from `from` up to `to`.
pub fn substring(source: &str, from: usize, to: usize) -> (text: String)
    requires
        from <= to <= encode_utf8(source@).len(),
        is_char_boundary(encode_utf8(source@), from as int),
        is_char_boundary(encode_utf8(source@), to as int),
    ensures
        encode_utf8(text@) == encode_utf8(source@).subrange(from as int, to as int),
{
    let ghost bytes = encode_utf8(source@);
    proof {
        encode_utf8_valid_utf8(source@);
    }
    let (head, _) = source.split_at(to);
    proof {
        valid_utf8_split(bytes, to as int);
        let prefix = bytes.subrange(0, to as int);
        assert(head.spec_bytes() == prefix);
        if from < to {
            is_char_boundary_iff_not_is_continuation_byte(bytes, from as int);
            is_char_boundary_iff_not_is_continuation_byte(prefix, from as int);
        } else {
            is_char_boundary_start_end_of_seq(prefix);
        }
    }
    let (_, tail) = head.split_at(from);
    let text = tail.to_owned();
    assert(tail.spec_bytes() =~= bytes.subrange(from as int, to as int));
    text
}

} // verus!
