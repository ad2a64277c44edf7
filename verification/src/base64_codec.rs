//! Standard base64, as the `base64` crate writes and reads it.

use base64::engine::general_purpose::STANDARD;
use base64::Engine;
use vstd::prelude::*;

verus! {

/// The standard, padded base64 text of `data`.
pub uninterp spec fn base64_text(data: Seq<u8>) -> Seq<char>;

/// The bytes that `text` stands for in standard, padded base64; none where it is
/// not that.
pub uninterp spec fn base64_bytes(text: Seq<char>) -> Option<Seq<u8>>;

/// Whether the base64 text of `data` fits in memory.
pub open spec fn encodable(data: Seq<u8>) -> bool {
    (data.len() + 2) / 3 * 4 <= isize::MAX
}

/// `base64`'s `STANDARD.encode`: a function of the data, and one that decoding
/// undoes, in four bytes of text for every three bytes of data begun. The text
/// must fit in memory.
#[verifier::external_body]
pub(crate) fn base64_encode(data: &[u8]) -> (r: String)
    requires
        encodable(data@),
    ensures
        r@ == base64_text(data@),
        base64_bytes(r@) == Some(data@),
        vstd::utf8::encode_utf8(r@).len() == (data@.len() + 2) / 3 * 4,
{
    STANDARD.encode(data)
}

/// `base64`'s `STANDARD.decode`: a function of the text.
#[verifier::external_body]
pub(crate) fn standard_decode(text: &str) -> (r: Option<Vec<u8>>)
    ensures
        match r {
            Some(bytes) => base64_bytes(text@) == Some(bytes@),
            None => base64_bytes(text@) is None,
        },
{
    STANDARD.decode(text).ok()
}

} // verus!
