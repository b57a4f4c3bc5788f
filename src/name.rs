//! What a well-formed fully qualified domain name is, and the check for it.
use vstd::prelude::*;
use vstd::string::is_ascii_spec_bytes;
use vstd::utf8::is_ascii_chars;

verus! {

/// The byte of the ASCII dot that separates labels.
pub const DOT: u8 = 0x2e;

/// Every label must be strictly shorter than this many bytes.
pub const LABEL_LIMIT: usize = 62;

/// The whole name must be strictly shorter than this many bytes.
pub const NAME_LIMIT: usize = 253;

/// `text[lo..hi]` is one of the labels of `text`: it begins at the start of
/// the text or just after a dot, ends at the end of the text or just before a
/// dot, and holds no dot. Leading, trailing and consecutive dots give empty
/// labels.
pub open spec fn is_label(text: Seq<char>, lo: int, hi: int) -> bool {
    &&& 0 <= lo <= hi <= text.len()
    &&& (lo == 0 || text[lo - 1] == '.')
    &&& (hi == text.len() || text[hi] == '.')
    &&& forall|k: int| lo <= k < hi ==> #[trigger] text[k] != '.'
}

/// Every label of `text` is shorter than `LABEL_LIMIT`.
pub open spec fn labels_fit(text: Seq<char>) -> bool {
    forall|lo: int, hi: int| #[trigger] is_label(text, lo, hi) ==> hi - lo < LABEL_LIMIT
}

/// `text` is a well-formed fully qualified domain name: all of it is ASCII,
/// it is neither empty nor `NAME_LIMIT` long or longer, and each of its
/// labels fits. An ASCII text has as many bytes as characters, so the lengths
/// here are byte lengths.
pub open spec fn is_fqdn(text: Seq<char>) -> bool {
    &&& is_ascii_chars(text)
    &&& 0 < text.len() < NAME_LIMIT
    &&& labels_fit(text)
}

/// A label whose dot-free stretch begins at `start` begins nowhere else.
proof fn lemma_label_start(text: Seq<char>, lo: int, hi: int, start: int)
    requires
        is_label(text, lo, hi),
        0 <= start <= hi,
        start == 0 || text[start - 1] == '.',
        forall|k: int| start <= k < hi ==> #[trigger] text[k] != '.',
    ensures
        lo == start,
{
    if lo < start {
        assert(text[start - 1] != '.');
    } else if lo > start {
        assert(text[lo - 1] != '.');
    }
}

/// A dot-free stretch that begins a label runs on to the end of that label.
proof fn lemma_label_through(text: Seq<char>, start: int, end: int) -> (hi: int)
    requires
        0 <= start <= end <= text.len(),
        start == 0 || text[start - 1] == '.',
        forall|k: int| start <= k < end ==> #[trigger] text[k] != '.',
    ensures
        end <= hi,
        is_label(text, start, hi),
    decreases text.len() - end,
{
    if end == text.len() || text[end] == '.' {
        end
    } else {
        lemma_label_through(text, start, end + 1)
    }
}

/// Checks that `s` is a well-formed fully qualified domain name.
pub fn is_valid_fqdn(s: &str) -> (r: bool)
    ensures
        r == is_fqdn(s@),
{
    if !s.is_ascii() {
        return false;
    }
    proof {
        is_ascii_spec_bytes(s);
    }
    let bytes = s.as_bytes();
    let n = bytes.len();
    let ghost text = s@;
    assert(n == text.len());
    if !(0 < n && n < NAME_LIMIT) {
        return false;
    }
    assert(forall|k: int| 0 <= k < n ==> (#[trigger] bytes@[k] == DOT) == (text[k] == '.'));
    // `run` counts the bytes of the label that byte `i` belongs to, up to `i`.
    let mut i: usize = 0;
    let mut run: usize = 0;
    while i < n
        invariant
            n == bytes@.len(),
            n == text.len(),
            text == s@,
            is_ascii_chars(text),
            0 < n < NAME_LIMIT,
            forall|k: int| 0 <= k < n ==> (#[trigger] bytes@[k] == DOT) == (text[k] == '.'),
            run <= i <= n,
            run < LABEL_LIMIT,
            i - run == 0 || text[i - run - 1] == '.',
            forall|k: int| i - run <= k < i ==> #[trigger] text[k] != '.',
            forall|lo: int, hi: int| #[trigger] is_label(text, lo, hi) && hi < i ==> hi - lo < LABEL_LIMIT,
        decreases n - i,
    {
        if bytes[i] == DOT {
            assert forall|lo: int, hi: int| #[trigger] is_label(text, lo, hi) && hi < i + 1 implies hi - lo < LABEL_LIMIT by {
                if hi == i {
                    lemma_label_start(text, lo, hi, i - run);
                }
            }
            run = 0;
        } else {
            if run + 1 == LABEL_LIMIT {
                proof {
                    let hi = lemma_label_through(text, i - run, i + 1);
                    assert(is_label(text, i - run, hi));
                }
                return false;
            }
            run = run + 1;
        }
        i = i + 1;
    }
    assert forall|lo: int, hi: int| #[trigger] is_label(text, lo, hi) implies hi - lo < LABEL_LIMIT by {
        if hi == n {
            lemma_label_start(text, lo, hi, n - run);
        }
    }
    true
}

} // verus!
