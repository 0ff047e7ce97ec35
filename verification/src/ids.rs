//! Identifiers of responses and output items: a prefix, the time in
//! milliseconds in hexadecimal, and a counter in hexadecimal.

use crate::text::chars_of;
use vstd::prelude::*;

verus! {

/// The hexadecimal digit for a value below sixteen, in lower case.
pub open spec fn hex_digit(d: int) -> char {
    "0123456789abcdef"@[d]
}

/// `n` in hexadecimal, lower case, without leading zeros.
pub open spec fn hex(n: nat) -> Seq<char>
    decreases n,
{
    if n < 16 {
        seq![hex_digit(n as int)]
    } else {
        hex(n / 16).push(hex_digit((n % 16) as int))
    }
}

/// `n` in hexadecimal, with zeros in front up to four digits.
pub open spec fn hex4(n: nat) -> Seq<char> {
    let h = hex(n);
    if h.len() >= 4 {
        h
    } else {
        Seq::new((4 - h.len()) as nat, |i: int| '0') + h
    }
}

/// The identifier minted for `prefix` at time `millis` with counter `n`.
pub open spec fn id_text(prefix: Seq<char>, millis: nat, n: nat) -> Seq<char> {
    prefix + seq!['_'] + hex(millis) + hex4(n)
}

/// The value of a hexadecimal digit in lower case, and 0 for any other
/// character.
pub open spec fn digit_value(c: char) -> nat {
    if c == '1' {
        1
    } else if c == '2' {
        2
    } else if c == '3' {
        3
    } else if c == '4' {
        4
    } else if c == '5' {
        5
    } else if c == '6' {
        6
    } else if c == '7' {
        7
    } else if c == '8' {
        8
    } else if c == '9' {
        9
    } else if c == 'a' {
        10
    } else if c == 'b' {
        11
    } else if c == 'c' {
        12
    } else if c == 'd' {
        13
    } else if c == 'e' {
        14
    } else if c == 'f' {
        15
    } else {
        0
    }
}

/// The number that a run of hexadecimal digits denotes.
pub open spec fn hex_value(s: Seq<char>) -> nat
    decreases s.len(),
{
    if s.len() == 0 {
        0
    } else {
        hex_value(s.drop_last()) * 16 + digit_value(s.last())
    }
}

/// A digit denotes the value it was written for.
pub proof fn lemma_digit_value(d: int)
    requires
        0 <= d < 16,
    ensures
        digit_value(hex_digit(d)) == d,
{
    reveal_strlit("0123456789abcdef");
}

/// The hexadecimal text of a number denotes that number.
pub proof fn lemma_hex_value(n: nat)
    ensures
        hex_value(hex(n)) == n,
    decreases n,
{
    if n < 16 {
        lemma_digit_value(n as int);
        let h = seq![hex_digit(n as int)];
        assert(h.drop_last() =~= Seq::<char>::empty());
        assert(h.last() == hex_digit(n as int));
        assert(hex_value(h.drop_last()) == 0);
        assert(hex_value(h) == hex_value(h.drop_last()) * 16 + digit_value(h.last()));
    } else {
        lemma_hex_value(n / 16);
        lemma_digit_value((n % 16) as int);
        let h = hex(n / 16).push(hex_digit((n % 16) as int));
        assert(h.drop_last() =~= hex(n / 16));
        assert(h.last() == hex_digit((n % 16) as int));
        assert(hex_value(h) == hex_value(h.drop_last()) * 16 + digit_value(h.last()));
        assert(n == (n / 16) * 16 + n % 16);
    }
}

/// Zeros in front of a run of digits do not change the number it denotes.
pub proof fn lemma_leading_zeros(k: nat, h: Seq<char>)
    ensures
        hex_value(Seq::new(k, |i: int| '0') + h) == hex_value(h),
    decreases h.len(), k,
{
    let zeros = Seq::new(k, |i: int| '0');
    if h.len() > 0 {
        assert((zeros + h).drop_last() =~= zeros + h.drop_last());
        assert((zeros + h).last() == h.last());
        lemma_leading_zeros(k, h.drop_last());
    } else {
        assert(zeros + h =~= zeros);
        if k > 0 {
            let fewer = Seq::new((k - 1) as nat, |i: int| '0');
            assert(zeros.drop_last() =~= fewer);
            assert(zeros.last() == '0');
            lemma_leading_zeros((k - 1) as nat, h);
            assert(fewer + h =~= fewer);
        }
    }
}

/// The padded hexadecimal text of a counter denotes that counter.
pub proof fn lemma_hex4_value(n: nat)
    ensures
        hex_value(hex4(n)) == n,
{
    lemma_hex_value(n);
    let h = hex(n);
    if h.len() < 4 {
        lemma_leading_zeros((4 - h.len()) as nat, h);
    }
}

/// An identifier ends with the last hexadecimal digit of its counter.
pub proof fn lemma_id_last(prefix: Seq<char>, millis: nat, n: nat)
    ensures
        id_text(prefix, millis, n).len() > 0,
        id_text(prefix, millis, n).last() == hex_digit((n % 16) as int),
{
    let h = hex(n);
    assert(h.len() > 0 && h.last() == hex_digit((n % 16) as int)) by {
        if n >= 16 {
            assert(h == hex(n / 16).push(hex_digit((n % 16) as int)));
        }
    }
    let padded = hex4(n);
    assert(padded.len() > 0 && padded.last() == h.last());
    let head = prefix + seq!['_'] + hex(millis);
    assert(id_text(prefix, millis, n) == head + padded);
    assert((head + padded).last() == padded.last());
}

/// The counter that follows `n`; it starts over after the largest value.
pub open spec fn next_counter(n: u64) -> u64 {
    if n == u64::MAX {
        0
    } else {
        (n + 1) as u64
    }
}

/// The counter from which identifiers are minted. Each identifier takes
/// the current value and advances the counter by one.
#[derive(Debug, PartialEq, Eq)]
pub struct IdMinter {
    pub counter: u64,
}

/// Reads the system clock with `SystemTime::now` and gives the whole
/// milliseconds since the Unix epoch, zero for a clock set before it.
/// Nothing is claimed of the value.
#[verifier::external_body]
pub(crate) fn now_millis() -> u128 {
    std::time::SystemTime::now().duration_since(std::time::UNIX_EPOCH).unwrap_or_default().as_millis()
}

/// Reads the system clock with `SystemTime::now` and gives the whole
/// seconds since the Unix epoch, zero for a clock set before it. Nothing is
/// claimed of the value.
#[verifier::external_body]
pub(crate) fn now_epoch() -> i64 {
    std::time::SystemTime::now().duration_since(std::time::UNIX_EPOCH).unwrap_or_default().as_secs() as i64
}

/// Appends `n` in hexadecimal to `out`.
pub fn push_hex(out: &mut Vec<char>, n: u128)
    ensures
        final(out)@ == old(out)@ + hex(n as nat),
    decreases n,
{
    let table = "0123456789abcdef";
    proof {
        reveal_strlit("0123456789abcdef");
    }
    if n >= 16 {
        push_hex(out, n / 16);
    }
    let d: usize = (n % 16) as usize;
    let c = table.get_char(d);
    out.push(c);
    assert(final(out)@ =~= old(out)@ + hex(n as nat));
}

/// The text of `n` in hexadecimal.
pub fn hex_of(n: u128) -> (r: Vec<char>)
    ensures
        r@ == hex(n as nat),
{
    let mut out: Vec<char> = Vec::new();
    push_hex(&mut out, n);
    assert(Seq::<char>::empty() + hex(n as nat) =~= hex(n as nat));
    out
}

impl IdMinter {
    /// A minter whose first identifier carries the counter 1.
    pub fn new() -> (r: IdMinter)
        ensures
            r.counter == 1,
    {
        IdMinter { counter: 1 }
    }

    /// A minter whose first identifier carries the counter `first`.
    pub fn starting_at(first: u64) -> (r: IdMinter)
        ensures
            r.counter == first,
    {
        IdMinter { counter: first }
    }

    /// Mints the identifier for `prefix` at the time `millis`, and advances
    /// the counter.
    pub fn next_id_at(&mut self, prefix: &str, millis: u128) -> (r: String)
        ensures
            r@ == id_text(prefix@, millis as nat, old(self).counter as nat),
            final(self).counter == next_counter(old(self).counter),
    {
        let n = self.counter;
        self.counter = if n == u64::MAX {
            0
        } else {
            n + 1
        };
        let mut out = chars_of(prefix);
        out.push('_');
        push_hex(&mut out, millis);
        let digits = hex_of(n as u128);
        let mut pad: usize = digits.len();
        let ghost before = out@;
        while pad < 4
            invariant
                digits.len() <= pad,
                pad == digits.len() || pad <= 4,
                out@ == before + Seq::new((pad - digits.len()) as nat, |i: int| '0'),
            decreases 4 - pad,
        {
            out.push('0');
            pad += 1;
            assert(out@ =~= before + Seq::new((pad - digits.len()) as nat, |i: int| '0'));
        }
        assert(out@ =~= before + Seq::new((pad - digits.len()) as nat, |i: int| '0'));
        let mut i: usize = 0;
        let ghost padded = out@;
        while i < digits.len()
            invariant
                i <= digits.len(),
                out@ == padded + digits@.subrange(0, i as int),
            decreases digits.len() - i,
        {
            out.push(digits[i]);
            i += 1;
            assert(out@ =~= padded + digits@.subrange(0, i as int));
        }
        assert(digits@.subrange(0, digits.len() as int) =~= digits@);
        assert(before == prefix@ + seq!['_'] + hex(millis as nat)) by {
            assert(prefix@.push('_') =~= prefix@ + seq!['_']);
        }
        let ghost zeros = Seq::new((pad - digits.len()) as nat, |i: int| '0');
        assert(zeros + digits@ =~= hex4(n as nat));
        assert(out@ =~= before + (zeros + digits@));
        crate::text::string_of(&out, 0, out.len())
    }

    /// Mints the identifier for `prefix` at the time the system clock
    /// shows, and advances the counter.
    pub fn next_id(&mut self, prefix: &str) -> (r: String)
        ensures
            exists|millis: nat| r@ == #[trigger] id_text(prefix@, millis, old(self).counter as nat),
            final(self).counter == next_counter(old(self).counter),
    {
        let millis = now_millis();
        self.next_id_at(prefix, millis)
    }
}

} // verus!
