use vstd::prelude::*;
use vstd::utf8::valid_utf8;
use vstd::string::StringSliceAdditionalSpecFns;

verus! {

/// The lower-case form of a text, as `str::to_lowercase` gives it (by the
/// Unicode `Lowercase` property); it depends on the text alone.
pub uninterp spec fn text_lowercase(s: Seq<char>) -> Seq<char>;

/// Calls `std::str::from_utf8`, which succeeds exactly on valid UTF-8 and
/// then gives back a text whose UTF-8 bytes are the input.
#[verifier::external_body]
pub(crate) fn str_from_utf8(v: &[u8]) -> (res: Option<&str>)
    ensures
        res is Some <==> valid_utf8(v@),
        res matches Some(text) ==> text.spec_bytes() == v@,
{
    std::str::from_utf8(v).ok()
}

/// Calls `str::to_lowercase`.
#[verifier::external_body]
pub(crate) fn to_lowercase(s: &str) -> (r: String)
    ensures
        r@ == text_lowercase(s@),
{
    s.to_lowercase()
}

} // verus!
