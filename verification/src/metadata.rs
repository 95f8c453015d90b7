use vstd::prelude::*;
use std::str::FromStr;
use tonic::metadata::{Ascii, MetadataValue};

verus! {

/// A character that may appear in a gRPC ASCII metadata value once the
/// text is encoded as UTF-8: the horizontal tab, or any character from the
/// space upward other than DEL.
pub open spec fn is_metadata_char(c: char) -> bool {
    c == '\t' || (c as u32 >= 32 && c as u32 != 127)
}

pub open spec fn is_metadata_text(s: Seq<char>) -> bool {
    forall|i: int| 0 <= i < s.len() ==> is_metadata_char(#[trigger] s[i])
}

/// `MetadataValue::<Ascii>::from_str` of tonic. It hands the text to
/// `http::HeaderValue::from_str`, which accepts exactly the byte strings
/// whose every byte is a tab or at least 32 and not 127; every byte of a
/// multi-byte UTF-8 character is at least 128, so at the level of
/// characters the test is `is_metadata_text`. The wrapper reports
/// whether the conversion succeeds; the value itself is built again where
/// the request is sent.
#[verifier::external_body]
pub fn metadata_value_accepts(s: &str) -> (r: bool)
    ensures
        r <==> is_metadata_text(s@),
{
    MetadataValue::<Ascii>::from_str(s).is_ok()
}

} // verus!
