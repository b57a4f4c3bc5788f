//! Properties of the check, stated over the model that its contract uses.
use vstd::prelude::*;
use vstd::string::{is_ascii_spec_bytes, StringSliceAdditionalSpecFns};
use vstd::utf8::is_ascii_chars;

use crate::name::{is_fqdn, is_label, labels_fit, LABEL_LIMIT, NAME_LIMIT};

verus! {

/// A text with any character at code point 128 or above is rejected.
pub proof fn lemma_non_ascii_rejected(s: &str, i: int)
    requires
        0 <= i < s@.len(),
        s@[i] as u32 >= 128,
    ensures
        !is_fqdn(s@),
{
}

/// The empty text is rejected.
pub proof fn lemma_empty_rejected(s: &str)
    requires
        s.spec_bytes().len() == 0,
    ensures
        !is_fqdn(s@),
{
    is_ascii_spec_bytes(s);
}

/// A text of `NAME_LIMIT` bytes or more is rejected.
pub proof fn lemma_too_long_rejected(s: &str)
    requires
        s.spec_bytes().len() >= NAME_LIMIT,
    ensures
        !is_fqdn(s@),
{
    is_ascii_spec_bytes(s);
}

/// An ASCII text within the length bounds whose labels all fit is accepted.
pub proof fn lemma_fitting_accepted(s: &str)
    requires
        is_ascii_chars(s@),
        0 < s.spec_bytes().len() < NAME_LIMIT,
        labels_fit(s@),
    ensures
        is_fqdn(s@),
{
    is_ascii_spec_bytes(s);
}

/// An ASCII text within the length bounds is rejected when one of its labels
/// is `LABEL_LIMIT` bytes or longer.
pub proof fn lemma_long_label_rejected(s: &str, lo: int, hi: int)
    requires
        is_ascii_chars(s@),
        0 < s.spec_bytes().len() < NAME_LIMIT,
        is_label(s@, lo, hi),
        hi - lo >= LABEL_LIMIT,
    ensures
        !is_fqdn(s@),
{
}

/// The verdict depends on the characters alone: two texts that hold the same
/// characters get the same verdict, however often they are checked.
pub proof fn lemma_verdict_depends_on_text(a: &str, b: &str)
    requires
        a@ == b@,
    ensures
        is_fqdn(a@) == is_fqdn(b@),
{
}

} // verus!
