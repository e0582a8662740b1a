//! Percent-decoding of URL path segments.

use vstd::prelude::*;

verus! {

/// The percent-decoded form of a string: `%XX` escapes replaced by the
/// bytes they stand for, the result re-read lossily as UTF-8.  It is a
/// function of the input characters alone.
pub uninterp spec fn percent_decoded(s: Seq<char>) -> Seq<char>;

/// Relies on percent_encoding::percent_decode_str, which replaces `%XX`
/// escapes by their byte values; the bytes are then read back as UTF-8
/// with replacement characters for invalid sequences.
#[verifier::external_body]
pub(crate) fn percent_decode_segment(s: &str) -> (r: String)
    ensures
        r@ == percent_decoded(s@),
{
    percent_encoding::percent_decode_str(s).decode_utf8_lossy().into_owned()
}

} // verus!
