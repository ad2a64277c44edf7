//! What group operations have from outside.

use vstd::prelude::*;

verus! {

/// The characters with the Unicode property `White_Space`.
pub open spec fn white_space(c: char) -> bool {
    ||| '\u{9}' <= c <= '\u{d}'
    ||| c == ' '
    ||| c == '\u{85}'
    ||| c == '\u{a0}'
    ||| c == '\u{1680}'
    ||| '\u{2000}' <= c <= '\u{200a}'
    ||| c == '\u{2028}'
    ||| c == '\u{2029}'
    ||| c == '\u{202f}'
    ||| c == '\u{205f}'
    ||| c == '\u{3000}'
}

/// The text is nothing but whitespace.
pub open spec fn blank(text: Seq<char>) -> bool {
    forall|i: int| 0 <= i < text.len() ==> white_space(#[trigger] text[i])
}

/// The part from `start` to `end` is what whitespace surrounds: there is nothing
/// else before and after it, and none at its own ends.
pub open spec fn surrounded(text: Seq<char>, start: int, end: int) -> bool {
    &&& 0 <= start <= end <= text.len()
    &&& blank(text.take(start))
    &&& blank(text.skip(end))
    &&& start < end ==> !white_space(text[start]) && !white_space(text[end - 1])
}

/// `rest` is the text without leading and trailing whitespace.
pub open spec fn trims_to(text: Seq<char>, rest: Seq<char>) -> bool {
    exists|start: int, end: int| #[trigger]
        surrounded(text, start, end) && rest == text.subrange(start, end)
}

/// `str::trim`: the text without leading and trailing whitespace.
#[verifier::external_body]
pub(crate) fn trim(text: &str) -> (r: &str)
    ensures
        trims_to(text@, r@),
{
    text.trim()
}

} // verus!
