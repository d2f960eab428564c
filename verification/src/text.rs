//! Text and its UTF-8 encoding.

use vstd::prelude::*;
use vstd::utf8::*;

verus! {

/// Calls `String::from_utf8` and drops the error's detail.
///
/// Assumed, as the standard library documents: the call succeeds exactly on
/// valid UTF-8, and the string then holds the characters that the bytes
/// encode.
#[verifier::external_body]
pub(crate) fn string_from_utf8(bytes: Vec<u8>) -> (r: Option<String>)
    ensures
        r is Some <==> valid_utf8(bytes@),
        r matches Some(text) ==> text@ == decode_utf8(bytes@),
{
    String::from_utf8(bytes).ok()
}

/// The UTF-8 encoding of two texts in a row is the two encodings in a row.
pub proof fn lemma_encode_concat(a: Seq<char>, b: Seq<char>)
    ensures
        encode_utf8(a + b) == encode_utf8(a) + encode_utf8(b),
    decreases a.len(),
{
    if a.len() == 0 {
        assert(a + b =~= b);
        assert(encode_utf8(a) + encode_utf8(b) =~= encode_utf8(b));
    } else {
        assert((a + b).drop_first() =~= a.drop_first() + b);
        assert((a + b)[0] == a[0]);
        lemma_encode_concat(a.drop_first(), b);
        assert(encode_utf8(a + b) =~= encode_utf8(a) + encode_utf8(b));
    }
}

/// The last character boundary of `bytes` at or before `limit`.
pub open spec fn floor_char_boundary(bytes: Seq<u8>, limit: int) -> int
    decreases limit,
{
    if limit <= 0 {
        0
    } else if is_char_boundary(bytes, limit) {
        limit
    } else {
        floor_char_boundary(bytes, limit - 1)
    }
}

/// The longest prefix of `text`, in whole characters, whose UTF-8 encoding
/// takes at most `budget` bytes.
pub open spec fn fitting_prefix(text: Seq<char>, budget: int) -> Seq<char> {
    let bytes = encode_utf8(text);
    let limit = if bytes.len() <= budget {
        bytes.len() as int
    } else {
        budget
    };
    decode_utf8(bytes.subrange(0, floor_char_boundary(bytes, limit)))
}

/// The last character boundary at or before a limit within the text is a
/// boundary, and lies between zero and the limit.
pub proof fn lemma_floor_char_boundary(bytes: Seq<u8>, limit: int)
    requires
        valid_utf8(bytes),
        0 <= limit <= bytes.len(),
    ensures
        0 <= floor_char_boundary(bytes, limit) <= limit,
        is_char_boundary(bytes, floor_char_boundary(bytes, limit)),
    decreases limit,
{
    is_char_boundary_start_end_of_seq(bytes);
    if limit > 0 && !is_char_boundary(bytes, limit) {
        lemma_floor_char_boundary(bytes, limit - 1);
    }
}

/// Text that fits is inserted whole.
pub proof fn lemma_fitting_prefix_whole(text: Seq<char>, budget: int)
    requires
        encode_utf8(text).len() <= budget,
    ensures
        fitting_prefix(text, budget) == text,
{
    let bytes = encode_utf8(text);
    encode_utf8_valid_utf8(text);
    encode_utf8_decode_utf8(text);
    is_char_boundary_start_end_of_seq(bytes);
    assert(bytes.subrange(0, bytes.len() as int) =~= bytes);
}

/// What is inserted fits in the budget and is the beginning of the text.
pub proof fn lemma_fitting_prefix(text: Seq<char>, budget: int)
    requires
        0 <= budget,
    ensures
        encode_utf8(fitting_prefix(text, budget)).len() <= budget,
        fitting_prefix(text, budget).is_prefix_of(text),
{
    let bytes = encode_utf8(text);
    let limit = if bytes.len() <= budget {
        bytes.len() as int
    } else {
        budget
    };
    encode_utf8_valid_utf8(text);
    encode_utf8_decode_utf8(text);
    lemma_floor_char_boundary(bytes, limit);
    let cut = floor_char_boundary(bytes, limit);
    valid_utf8_split(bytes, cut);
    decode_utf8_split(bytes, cut);
    decode_utf8_encode_utf8(bytes.subrange(0, cut));
    let head = decode_utf8(bytes.subrange(0, cut));
    let tail = decode_utf8(bytes.subrange(cut, bytes.len() as int));
    assert(text =~= head + tail);
    assert(head =~= text.subrange(0, head.len() as int));
}

} // verus!
