//! Counting the lines of a text.

use vstd::prelude::*;

verus! {

/// How often a byte occurs.
pub open spec fn occurrences(haystack: Seq<u8>, needle: u8) -> nat
    decreases haystack.len(),
{
    if haystack.len() == 0 {
        0
    } else {
        occurrences(haystack.drop_last(), needle) + if haystack.last() == needle {
            1nat
        } else {
            0
        }
    }
}

/// `bytecount::count`: how often a byte occurs in a slice.
#[verifier::external_body]
fn count_byte(haystack: &[u8], needle: u8) -> (count: usize)
    ensures
        count == occurrences(haystack@, needle),
{
    bytecount::count(haystack, needle)
}

/// Number of lines in a piece of a text: the number of its line feeds.
pub fn count_lines(buffer: &[u8]) -> (count: usize)
    ensures
        count == occurrences(buffer@, 10u8),
{
    count_byte(buffer, 10u8)
}

/// The lines of a text read in two pieces are those of the pieces together.
pub proof fn lemma_occurrences_concat(a: Seq<u8>, b: Seq<u8>, needle: u8)
    ensures
        occurrences(a + b, needle) == occurrences(a, needle) + occurrences(b, needle),
        occurrences(a, needle) <= a.len(),
    decreases b.len(), a.len(),
{
    if b.len() == 0 {
        assert(a + b =~= a);
        if a.len() > 0 {
            lemma_occurrences_concat(a.drop_last(), Seq::empty(), needle);
        }
    } else {
        lemma_occurrences_concat(a, b.drop_last(), needle);
        assert((a + b).drop_last() =~= a + b.drop_last());
        assert((a + b).last() == b.last());
    }
}

} // verus!
