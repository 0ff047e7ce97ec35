//! The frame parser of the upstream event stream: blocks end at an empty
//! line, and the payloads are the lines of a block that begin with
//! `data: `, but for the terminator `[DONE]`.

use crate::text::{
    chars_of, find_char, has_prefix, index_of, same, slice, starts_with, string_of, text_views,
    trim, trim_bounds,
};
use vstd::prelude::*;

verus! {

/// The payload of a line: what follows `data: ` once white space is taken
/// off both ends of the line. Nothing for a line that does not begin so,
/// and nothing for the terminator `[DONE]`.
pub open spec fn line_payload(line: Seq<char>) -> Option<Seq<char>> {
    let t = trim(line);
    if has_prefix(t, "data: "@) {
        let d = t.subrange("data: "@.len() as int, t.len() as int);
        if d == "[DONE]"@ {
            None
        } else {
            Some(d)
        }
    } else {
        None
    }
}

/// The payloads of the lines of `block` from position `i` on; lines end at
/// a line feed.
pub open spec fn block_payloads_from(block: Seq<char>, i: int) -> Seq<Seq<char>>
    decreases block.len() - i,
{
    if 0 <= i <= block.len() {
        let k = find_char(block, '\n', i);
        let here = match line_payload(block.subrange(i, k)) {
            Some(p) => seq![p],
            None => Seq::empty(),
        };
        if i <= k < block.len() {
            here + block_payloads_from(block, k + 1)
        } else {
            here
        }
    } else {
        Seq::empty()
    }
}

/// The payloads of a block.
pub open spec fn block_payloads(block: Seq<char>) -> Seq<Seq<char>> {
    block_payloads_from(block, 0)
}

/// The first position at or after `i` where two line feeds stand side by
/// side, or the length of `s` where there is none.
pub open spec fn find_blank(s: Seq<char>, i: int) -> int
    decreases s.len() - i,
{
    if 0 <= i && i + 1 < s.len() {
        if s[i] == '\n' && s[i + 1] == '\n' {
            i
        } else {
            find_blank(s, i + 1)
        }
    } else {
        s.len() as int
    }
}

/// The payloads of the complete blocks of `buf` from position `i` on.
pub open spec fn payloads_from(buf: Seq<char>, i: int) -> Seq<Seq<char>>
    decreases buf.len() - i,
{
    let k = find_blank(buf, i);
    if 0 <= i <= k && k + 2 <= buf.len() {
        block_payloads(buf.subrange(i, k)) + payloads_from(buf, k + 2)
    } else {
        Seq::empty()
    }
}

/// What is left of `buf` from position `i` on after its complete blocks.
pub open spec fn rest_from(buf: Seq<char>, i: int) -> Seq<char>
    decreases buf.len() - i,
{
    let k = find_blank(buf, i);
    if 0 <= i <= k && k + 2 <= buf.len() {
        rest_from(buf, k + 2)
    } else if 0 <= i <= buf.len() {
        buf.subrange(i, buf.len() as int)
    } else {
        Seq::empty()
    }
}

/// The payloads of all complete blocks of a buffer, in order.
pub open spec fn payloads(buf: Seq<char>) -> Seq<Seq<char>> {
    payloads_from(buf, 0)
}

/// The unfinished block at the end of a buffer.
pub open spec fn remainder(buf: Seq<char>) -> Seq<char> {
    rest_from(buf, 0)
}

/// Where a blank line is found: at or after the start, with both of its
/// line feeds inside the text.
pub proof fn lemma_find_blank_bounds(s: Seq<char>, i: int)
    requires
        0 <= i <= s.len(),
    ensures
        i <= find_blank(s, i) <= s.len(),
        find_blank(s, i) < s.len() ==> find_blank(s, i) + 2 <= s.len(),
    decreases s.len() - i,
{
    if i + 1 < s.len() && !(s[i] == '\n' && s[i + 1] == '\n') {
        lemma_find_blank_bounds(s, i + 1);
    }
}

/// The payload of a line.
pub fn payload_of_line(line: &Vec<char>) -> (r: Option<String>)
    ensures
        match r {
            Some(p) => line_payload(line@) == Some(p@),
            None => line_payload(line@) is None,
        },
{
    let (a, b) = trim_bounds(line);
    let t = slice(line, a, b);
    let prefix = chars_of("data: ");
    if starts_with(&t, &prefix) {
        let d = string_of(&t, prefix.len(), t.len());
        if same(d.as_str(), "[DONE]") {
            None
        } else {
            Some(d)
        }
    } else {
        None
    }
}

/// Appends the payloads of a block.
pub fn push_block_payloads(block: &Vec<char>, out: &mut Vec<String>)
    ensures
        text_views(final(out)@) == text_views(old(out)@) + block_payloads(block@),
{
    let ghost before = text_views(out@);
    let mut i: usize = 0;
    let mut done = false;
    assert(before + block_payloads_from(block@, 0) =~= text_views(out@) + block_payloads_from(
        block@,
        0,
    ));
    while !done
        invariant
            i <= block.len(),
            !done ==> before + block_payloads(block@) == text_views(out@) + block_payloads_from(
                block@,
                i as int,
            ),
            done ==> before + block_payloads(block@) == text_views(out@),
        decreases block.len() - i + (if done { 0int } else { 1int }),
    {
        let ghost so_far = text_views(out@);
        let k = index_of(block, '\n', i);
        let line = slice(block, i, k);
        match payload_of_line(&line) {
            Some(p) => {
                out.push(p);
                assert(text_views(out@) =~= so_far + seq![p@]);
            },
            None => {
                assert(text_views(out@) =~= so_far + Seq::<Seq<char>>::empty());
            },
        }
        if k < block.len() {
            assert(so_far + block_payloads_from(block@, i as int) =~= text_views(out@)
                + block_payloads_from(block@, k + 1));
            i = k + 1;
        } else {
            assert(so_far + block_payloads_from(block@, i as int) =~= text_views(out@));
            done = true;
        }
    }
    assert(text_views(out@) =~= before + block_payloads(block@));
}

/// The first position at or after `i` where two line feeds stand side by
/// side, or the length of `s`.
pub fn blank_at(s: &Vec<char>, i: usize) -> (r: usize)
    requires
        i <= s.len(),
    ensures
        r == find_blank(s@, i as int),
        i <= r <= s.len(),
        r < s.len() ==> r + 2 <= s.len(),
{
    proof {
        lemma_find_blank_bounds(s@, i as int);
    }
    let mut k: usize = i;
    while k < s.len() && s.len() - k >= 2 && !(s[k] == '\n' && s[k + 1] == '\n')
        invariant
            i <= k <= s.len(),
            find_blank(s@, i as int) == find_blank(s@, k as int),
        decreases s.len() - k,
    {
        k += 1;
    }
    if k < s.len() && s.len() - k >= 2 {
        k
    } else {
        s.len()
    }
}

/// Takes the payloads of all complete blocks out of the buffer and leaves
/// the unfinished block in it.
pub fn take_payloads(buffer: &mut Vec<char>) -> (r: Vec<String>)
    ensures
        text_views(r@) == payloads(old(buffer)@),
        final(buffer)@ == remainder(old(buffer)@),
{
    let ghost buf = buffer@;
    let mut out: Vec<String> = Vec::new();
    assert(text_views(out@) =~= Seq::<Seq<char>>::empty());
    assert(payloads(buf) =~= text_views(out@) + payloads_from(buf, 0));
    let mut start: usize = 0;
    let mut k: usize = blank_at(buffer, 0);
    while k < buffer.len()
        invariant
            buffer@ == buf,
            start <= k <= buf.len(),
            k == find_blank(buf, start as int),
            k < buf.len() ==> k + 2 <= buf.len(),
            payloads(buf) == text_views(out@) + payloads_from(buf, start as int),
            remainder(buf) == rest_from(buf, start as int),
        decreases buf.len() - start,
    {
        let ghost so_far = text_views(out@);
        let block = slice(buffer, start, k);
        push_block_payloads(&block, &mut out);
        assert(so_far + payloads_from(buf, start as int) =~= text_views(out@) + payloads_from(
            buf,
            k + 2,
        ));
        start = k + 2;
        k = blank_at(buffer, start);
    }
    assert(payloads(buf) =~= text_views(out@));
    let rest = slice(buffer, start, buffer.len());
    *buffer = rest;
    out
}

} // verus!
