//! Incremental tail reading: of the bytes that appeared since the last read
//! offset, exactly the complete (newline-terminated) lines are consumed; a
//! partial trailing line is left for the next poll.

use vstd::prelude::*;
use crate::bytes::{find_at_or_after, lemma_find_first, match_at, find_in, subrange_to_vec, seqs_view};

verus! {

/// The newline terminator.
pub open spec fn newline() -> Seq<u8> {
    seq![10u8]
}

/// The complete lines of `b` starting at `pos`, without their terminators.
pub open spec fn lines_from(b: Seq<u8>, pos: int) -> Seq<Seq<u8>>
    decreases b.len() - pos when 0 <= pos <= b.len() via lines_from_decreases
{
    match find_at_or_after(b, newline(), pos) {
        None => Seq::empty(),
        Some(i) => seq![b.subrange(pos, i)] + lines_from(b, i + 1),
    }
}

#[via_fn]
proof fn lines_from_decreases(b: Seq<u8>, pos: int) {
    lemma_find_first(b, newline(), pos);
}

/// All complete lines of a freshly read buffer.
pub open spec fn complete_lines(b: Seq<u8>) -> Seq<Seq<u8>> {
    lines_from(b, 0)
}

/// The position just past the last newline at or after `pos` (or `pos` if
/// there is none): how much of the buffer a poll consumes.
pub open spec fn consumed_to(b: Seq<u8>, pos: int) -> int
    decreases b.len() - pos when 0 <= pos <= b.len() via consumed_to_decreases
{
    match find_at_or_after(b, newline(), pos) {
        None => pos,
        Some(i) => consumed_to(b, i + 1),
    }
}

#[via_fn]
proof fn consumed_to_decreases(b: Seq<u8>, pos: int) {
    lemma_find_first(b, newline(), pos);
}

/// How many bytes of a freshly read buffer are consumed.
pub open spec fn consumed_len(b: Seq<u8>) -> int {
    consumed_to(b, 0)
}

/// Split a freshly read buffer into its complete lines and the count of
/// bytes consumed; an incomplete trailing line is not consumed.
pub fn split_complete_lines(buf: &[u8]) -> (r: (Vec<Vec<u8>>, usize))
    ensures
        seqs_view(r.0@) == complete_lines(buf@),
        r.1 == consumed_len(buf@),
        r.1 <= buf@.len(),
{
    let n = buf.len();
    let mut lines: Vec<Vec<u8>> = Vec::new();
    let mut pos: usize = 0;
    let nl: Vec<u8> = vec![10u8];
    proof {
        assert(nl@ =~= newline());
        assert(seqs_view(lines@) + lines_from(buf@, 0) =~= lines_from(buf@, 0));
    }
    loop
        invariant
            n == buf@.len(),
            0 <= pos <= n,
            nl@ == newline(),
            seqs_view(lines@) + lines_from(buf@, pos as int) =~= complete_lines(buf@),
            consumed_to(buf@, pos as int) == consumed_len(buf@),
        decreases n - pos,
    {
        match find_in(buf, nl.as_slice(), pos) {
            None => {
                proof {
                    assert(lines_from(buf@, pos as int) =~= Seq::<Seq<u8>>::empty());
                    assert(seqs_view(lines@) + Seq::<Seq<u8>>::empty() =~= seqs_view(lines@));
                }
                return (lines, pos);
            },
            Some(i) => {
                proof {
                    lemma_find_first(buf@, newline(), pos as int);
                    assert(match_at(buf@, newline(), i as int));
                }
                let line = subrange_to_vec(buf, pos, i);
                let ghost before = lines@;
                lines.push(line);
                proof {
                    assert(seqs_view(lines@) =~= seqs_view(before) + seq![buf@.subrange(
                        pos as int,
                        i as int,
                    )]);
                    assert(seqs_view(lines@) + lines_from(buf@, i + 1) =~= complete_lines(buf@));
                }
                pos = i + 1;
            },
        }
    }
}

/// The next read offset after consuming `consumed` bytes, unless the file
/// position would no longer fit the offset type.
pub fn advance_offset(offset: u64, consumed: usize) -> (r: Option<u64>)
    ensures
        match r {
            Some(next) => next == offset + consumed as u64,
            None => offset + consumed as u64 > u64::MAX,
        },
{
    offset.checked_add(consumed as u64)
}

} // verus!
