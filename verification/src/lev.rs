//! Edit distance between album names.

use vstd::prelude::*;
use vstd::string::StringSliceAdditionalSpecFns;

verus! {

/// Levenshtein edit distance with unit costs between two byte sequences:
/// the least number of single-byte insertions, deletions and substitutions
/// that turns `a` into `b`.
pub open spec fn lev(a: Seq<u8>, b: Seq<u8>) -> nat
    decreases a.len() + b.len(),
{
    if a.len() == 0 {
        b.len()
    } else if b.len() == 0 {
        a.len()
    } else if a[0] == b[0] {
        lev(a.drop_first(), b.drop_first())
    } else {
        let del = lev(a.drop_first(), b);
        let ins = lev(a, b.drop_first());
        let sub = lev(a.drop_first(), b.drop_first());
        1 + if del <= ins && del <= sub {
            del
        } else if ins <= sub {
            ins
        } else {
            sub
        }
    }
}

/// Relies on `stringmetrics::levenshtein`: it computes the Levenshtein
/// distance with unit costs over the UTF-8 bytes of its two arguments, and
/// the result is exact whenever it stays below `u32::MAX`, which the length
/// bounds here guarantee.
#[verifier::external_body]
pub(crate) fn levenshtein_exec(a: &str, b: &str) -> (r: u32)
    requires
        a.spec_bytes().len() < 0xFFFF_FFFF,
        b.spec_bytes().len() < 0xFFFF_FFFF,
    ensures
        r == lev(a.spec_bytes(), b.spec_bytes()),
{
    stringmetrics::levenshtein(a, b)
}

} // verus!
