//! Text as it crosses the boundary: UTF-8 bytes ended by a single NUL.
//!
//! A borrowed buffer is read up to its first NUL and checked before it is
//! taken for text. An [`OwnedString`] is text that can be written that way
//! and read back unchanged: it holds no NUL character.

use crate::error::BoundaryError;
use vstd::prelude::*;
use vstd::string::StrSliceExecFns;
use vstd::string::StringSliceAdditionalSpecFns;
use vstd::utf8::{
    char_is_scalar, char_u32_cast, decode_utf8, decode_utf8_encode_utf8, encode_scalar, encode_utf8, encode_utf8_decode_utf8,
    encode_utf8_valid_utf8, has_width_1_encoding, has_width_2_encoding, has_width_3_encoding,
    has_width_4_encoding, last_continuation_byte, leading_byte_width_1, leading_byte_width_2,
    leading_byte_width_3, leading_byte_width_4, second_last_continuation_byte,
    third_last_continuation_byte, valid_utf8,
};

verus! {

/// No byte of `bytes` is NUL.
pub open spec fn nul_free(bytes: Seq<u8>) -> bool {
    forall|i: int| 0 <= i < bytes.len() ==> bytes[i] != 0
}

/// The first NUL of `bytes` stands at index `k`.
pub open spec fn first_nul_at(bytes: Seq<u8>, k: int) -> bool {
    &&& 0 <= k < bytes.len()
    &&& bytes[k] == 0
    &&& forall|i: int| 0 <= i < k ==> bytes[i] != 0
}

/// Where the first NUL of `bytes` stands, if it has one.
pub open spec fn nul_position(bytes: Seq<u8>) -> Option<int> {
    if exists|k: int| first_nul_at(bytes, k) {
        Some(choose|k: int| first_nul_at(bytes, k))
    } else {
        None
    }
}

/// The text that a borrowed buffer holds: the bytes before its first NUL,
/// read as UTF-8. There is none where the buffer has no NUL or those bytes
/// are not UTF-8.
pub open spec fn borrowed_text(buffer: Seq<u8>) -> Option<Seq<char>> {
    match nul_position(buffer) {
        Some(k) => if valid_utf8(buffer.take(k)) {
            Some(decode_utf8(buffer.take(k)))
        } else {
            None
        },
        None => None,
    }
}

/// `text` can be written as a NUL-terminated string and read back: none of
/// its characters is NUL.
pub open spec fn can_cross(text: Seq<char>) -> bool {
    forall|i: int| 0 <= i < text.len() ==> text[i] != '\0'
}

/// `text` as a NUL-terminated string: its UTF-8 form, then one NUL.
pub open spec fn nul_terminated(text: Seq<char>) -> Seq<u8> {
    encode_utf8(text).push(0u8)
}

/// A buffer has at most one first NUL.
pub proof fn first_nul_is_unique(bytes: Seq<u8>, j: int, k: int)
    requires
        first_nul_at(bytes, j),
        first_nul_at(bytes, k),
    ensures
        j == k,
{
}

/// `nul_position` is the index at which the first NUL stands, and is absent
/// exactly for a buffer without NUL.
pub proof fn nul_position_is_first_nul(bytes: Seq<u8>)
    ensures
        forall|k: int| first_nul_at(bytes, k) <==> nul_position(bytes) == Some(k),
        nul_free(bytes) <==> nul_position(bytes) is None,
{
    if exists|k: int| first_nul_at(bytes, k) {
        let found = choose|k: int| first_nul_at(bytes, k);
        assert forall|k: int| first_nul_at(bytes, k) implies k == found by {
            first_nul_is_unique(bytes, k, found);
        }
        assert(!nul_free(bytes));
    } else {
        if !nul_free(bytes) {
            let i = choose|i: int| 0 <= i < bytes.len() && bytes[i] == 0;
            lemma_some_nul_has_first(bytes, i);
        }
    }
}

proof fn lemma_some_nul_has_first(bytes: Seq<u8>, i: int)
    requires
        0 <= i < bytes.len(),
        bytes[i] == 0,
    ensures
        exists|k: int| first_nul_at(bytes, k),
    decreases i,
{
    if forall|j: int| 0 <= j < i ==> bytes[j] != 0 {
        assert(first_nul_at(bytes, i));
    } else {
        let j = choose|j: int| 0 <= j < i && bytes[j] == 0;
        lemma_some_nul_has_first(bytes, j);
    }
}

/// Bytes joined hold no NUL exactly when neither part does.
pub proof fn nul_free_concat(a: Seq<u8>, b: Seq<u8>)
    ensures
        nul_free(a + b) <==> nul_free(a) && nul_free(b),
{
    if nul_free(a + b) {
        assert forall|i: int| 0 <= i < a.len() implies a[i] != 0 by {
            assert((a + b)[i] == a[i]);
        }
        assert forall|i: int| 0 <= i < b.len() implies b[i] != 0 by {
            assert((a + b)[a.len() + i] == b[i]);
        }
    }
}

/// Texts joined can cross exactly when each part can.
pub proof fn can_cross_concat(a: Seq<char>, b: Seq<char>)
    ensures
        can_cross(a + b) <==> can_cross(a) && can_cross(b),
{
    if can_cross(a + b) {
        assert forall|i: int| 0 <= i < a.len() implies a[i] != '\0' by {
            assert((a + b)[i] == a[i]);
        }
        assert forall|i: int| 0 <= i < b.len() implies b[i] != '\0' by {
            assert((a + b)[a.len() + i] == b[i]);
        }
    }
}

proof fn lemma_only_zero_encodes_to_nul(scalar: u32)
    by (bit_vector)
    ensures
        has_width_1_encoding(scalar) ==> (leading_byte_width_1(scalar) == 0 <==> scalar == 0),
        leading_byte_width_2(scalar) != 0,
        leading_byte_width_3(scalar) != 0,
        leading_byte_width_4(scalar) != 0,
        last_continuation_byte(scalar) != 0,
        second_last_continuation_byte(scalar) != 0,
        third_last_continuation_byte(scalar) != 0,
{
}

/// UTF-8 writes a NUL byte for the NUL character and for no other: the
/// UTF-8 form of a text holds no NUL exactly when the text can cross.
pub proof fn utf8_holds_nul_only_for_nul(text: Seq<char>)
    ensures
        nul_free(encode_utf8(text)) <==> can_cross(text),
    decreases text.len(),
{
    if text.len() > 0 {
        let head = text[0] as u32;
        let first = encode_scalar(head);
        let rest = text.drop_first();
        char_is_scalar(text[0]);
        lemma_only_zero_encodes_to_nul(head);
        assert(nul_free(first) <==> text[0] != '\0') by {
            assert(head == 0 <==> text[0] == '\0') by {
                char_u32_cast(text[0], head);
            }
            if has_width_1_encoding(head) {
                assert(first[0] == leading_byte_width_1(head));
            } else if has_width_2_encoding(head) {
                assert(first[0] != 0 && first[1] != 0);
            } else if has_width_3_encoding(head) {
                assert(first[0] != 0 && first[1] != 0 && first[2] != 0);
            } else {
                assert(first[0] != 0 && first[1] != 0 && first[2] != 0 && first[3] != 0);
            }
        }
        utf8_holds_nul_only_for_nul(rest);
        nul_free_concat(first, encode_utf8(rest));
        assert(text == seq![text[0]] + rest);
        can_cross_concat(seq![text[0]], rest);
    }
}

/// What a buffer holds can cross back.
pub proof fn borrowed_text_can_cross(buffer: Seq<u8>)
    requires
        borrowed_text(buffer) is Some,
    ensures
        can_cross(borrowed_text(buffer)->0),
{
    let k = nul_position(buffer)->0;
    nul_position_is_first_nul(buffer);
    decode_utf8_encode_utf8(buffer.take(k));
    utf8_holds_nul_only_for_nul(decode_utf8(buffer.take(k)));
}

/// A text written as a NUL-terminated string ends with the only NUL, and
/// read back as a borrowed buffer it is the same text.
pub proof fn written_text_reads_back(text: Seq<char>)
    requires
        can_cross(text),
    ensures
        first_nul_at(nul_terminated(text), nul_terminated(text).len() - 1),
        borrowed_text(nul_terminated(text)) == Some(text),
{
    let bytes = encode_utf8(text);
    let k = bytes.len() as int;
    utf8_holds_nul_only_for_nul(text);
    assert(first_nul_at(nul_terminated(text), k));
    nul_position_is_first_nul(nul_terminated(text));
    assert(nul_terminated(text).take(k) == bytes);
    encode_utf8_valid_utf8(text);
    encode_utf8_decode_utf8(text);
}

/// Finds the first NUL of `bytes`.
pub fn find_nul(bytes: &[u8]) -> (found: Option<usize>)
    ensures
        match found {
            Some(k) => nul_position(bytes@) == Some(k as int),
            None => nul_position(bytes@) is None,
        },
{
    let mut i: usize = 0;
    while i < bytes.len()
        invariant
            i <= bytes@.len(),
            forall|j: int| 0 <= j < i ==> bytes@[j] != 0,
        decreases bytes@.len() - i,
    {
        if bytes[i] == 0 {
            proof {
                assert(first_nul_at(bytes@, i as int));
                nul_position_is_first_nul(bytes@);
            }
            return Some(i);
        }
        i += 1;
    }
    proof {
        assert(nul_free(bytes@));
        nul_position_is_first_nul(bytes@);
    }
    None
}

/// `core::str::Utf8Error`, the reason `core::str::from_utf8` gives for a
/// refusal. Nothing is read from it.
#[verifier::external_type_specification]
#[verifier::external_body]
pub struct ExUtf8Error(core::str::Utf8Error);

/// `core::str::from_utf8` accepts a slice exactly when its bytes are
/// well-formed UTF-8, and the string slice it then returns is made of those
/// same bytes. Believed, not proved.
pub assume_specification[ core::str::from_utf8 ](v: &[u8]) -> (r: Result<
    &str,
    core::str::Utf8Error,
>)
    ensures
        r is Ok <==> valid_utf8(v@),
        r matches Ok(s) ==> s.spec_bytes() == v@,
;

/// Reads the text that a borrowed buffer holds, or refuses the buffer.
pub fn read_borrowed<'a>(buffer: &'a [u8]) -> (r: Result<&'a str, BoundaryError>)
    ensures
        match borrowed_text(buffer@) {
            Some(text) => r matches Ok(read) && read@ == text && can_cross(text),
            None => r == Err::<&str, BoundaryError>(BoundaryError::InvalidInput),
        },
{
    match find_nul(buffer) {
        Some(k) => {
            match core::str::from_utf8(&buffer[0..k]) {
                Ok(text) => {
                    proof {
                        assert(buffer@.subrange(0, k as int) == buffer@.take(k as int));
                        encode_utf8_decode_utf8(text@);
                        borrowed_text_can_cross(buffer@);
                    }
                    Ok(text)
                },
                Err(_) => Err(BoundaryError::InvalidInput),
            }
        },
        None => Err(BoundaryError::InvalidInput),
    }
}

/// Text owned by this side of the boundary and ready to be handed across as
/// a NUL-terminated string. Its view is the text.
///
/// A value is made only here and cannot be copied, so whoever holds one
/// holds the only one: giving it away, to a caller or to
/// [`free_string`](crate::boundary::free_string), can happen once.
#[derive(Debug)]
pub struct OwnedString {
    text: String,
}

impl View for OwnedString {
    type V = Seq<char>;

    closed spec fn view(&self) -> Seq<char> {
        self.text@
    }
}

impl OwnedString {
    #[verifier::type_invariant]
    spec fn holds_no_nul(self) -> bool {
        can_cross(self.text@)
    }

    /// Takes ownership of a text that can cross.
    pub(crate) fn seal(text: String) -> (owned: OwnedString)
        requires
            can_cross(text@),
        ensures
            owned@ == text@,
    {
        OwnedString { text }
    }

    /// The text.
    pub fn as_str(&self) -> (text: &str)
        ensures
            text@ == self@,
            can_cross(text@),
    {
        proof {
            use_type_invariant(self);
        }
        self.text.as_str()
    }

    /// The text as a NUL-terminated string: its UTF-8 bytes, then the one
    /// NUL, which is the last byte.
    pub fn into_bytes_with_nul(self) -> (bytes: Vec<u8>)
        ensures
            bytes@ == nul_terminated(self@),
            first_nul_at(bytes@, bytes@.len() - 1),
            borrowed_text(bytes@) == Some(self@),
    {
        proof {
            use_type_invariant(&self);
            written_text_reads_back(self.text@);
        }
        let mut bytes = self.text.as_str().as_bytes_vec();
        bytes.push(0u8);
        bytes
    }
}

} // verus!
