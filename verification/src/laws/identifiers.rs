//! Identifiers that differ.

use vstd::prelude::*;

verus! {

/// Identifiers: two identifiers minted for one prefix at one time differ
/// where their counters differ.
pub proof fn law_identifiers_differ(prefix: Seq<char>, millis: nat, a: nat, b: nat)
    requires
        a != b,
    ensures
        crate::ids::id_text(prefix, millis, a) != crate::ids::id_text(prefix, millis, b),
{
    let head = prefix + seq!['_'] + crate::ids::hex(millis);
    let x = crate::ids::id_text(prefix, millis, a);
    let y = crate::ids::id_text(prefix, millis, b);
    crate::ids::lemma_hex4_value(a);
    crate::ids::lemma_hex4_value(b);
    if x == y {
        assert(x.subrange(head.len() as int, x.len() as int) =~= crate::ids::hex4(a));
        assert(y.subrange(head.len() as int, y.len() as int) =~= crate::ids::hex4(b));
    }
}

/// Successive identifiers: two identifiers minted one after the other for
/// one prefix differ, whatever the times at which they are minted.
pub proof fn law_successive_identifiers_differ(
    prefix: Seq<char>,
    first: nat,
    second: nat,
    counter: u64,
)
    ensures
        crate::ids::id_text(prefix, first, counter as nat) != crate::ids::id_text(
            prefix,
            second,
            crate::ids::next_counter(counter) as nat,
        ),
{
    let next = crate::ids::next_counter(counter);
    crate::ids::lemma_id_last(prefix, first, counter as nat);
    crate::ids::lemma_id_last(prefix, second, next as nat);
    crate::ids::lemma_digit_value((counter as nat % 16) as int);
    crate::ids::lemma_digit_value((next as nat % 16) as int);
    assert(counter as nat % 16 != next as nat % 16);
}

} // verus!
