//! Text helper for the front end: split a comma-separated entry list into
//! its trimmed, non-empty items. Presentation markup around the items is the
//! front end's business.

use vstd::prelude::*;
use crate::bytes::{find_at_or_after, lemma_find_first, match_at, find_in, subrange_to_vec, seqs_view};

verus! {

/// The item separator.
pub open spec fn comma() -> Seq<u8> {
    seq![44u8]
}

/// ASCII whitespace, as trimming understands it.
pub open spec fn is_space(b: u8) -> bool {
    b == 9 || b == 10 || b == 11 || b == 12 || b == 13 || b == 32
}

/// First index at or after `i` that is not whitespace (or the length).
pub open spec fn trim_start_idx(s: Seq<u8>, i: int) -> int
    decreases s.len() - i when 0 <= i <= s.len()
{
    if i < s.len() && is_space(s[i]) {
        trim_start_idx(s, i + 1)
    } else {
        i
    }
}

/// Last index at or before `i` preceded by a non-whitespace byte (or zero).
pub open spec fn trim_end_idx(s: Seq<u8>, i: int) -> int
    decreases i when 0 <= i <= s.len()
{
    if i > 0 && is_space(s[i - 1]) {
        trim_end_idx(s, i - 1)
    } else {
        i
    }
}

/// `s` without leading and trailing ASCII whitespace.
pub open spec fn trim_spec(s: Seq<u8>) -> Seq<u8> {
    let a = trim_start_idx(s, 0);
    let b = trim_end_idx(s, s.len() as int);
    if a <= b {
        s.subrange(a, b)
    } else {
        Seq::empty()
    }
}

/// The trimmed, non-empty pieces between commas, from `pos` on.
pub open spec fn items_from(s: Seq<u8>, pos: int) -> Seq<Seq<u8>>
    decreases s.len() - pos when 0 <= pos <= s.len() via items_from_decreases
{
    match find_at_or_after(s, comma(), pos) {
        None => {
            let t = trim_spec(s.subrange(pos, s.len() as int));
            if t.len() == 0 {
                Seq::empty()
            } else {
                seq![t]
            }
        },
        Some(i) => {
            let t = trim_spec(s.subrange(pos, i));
            (if t.len() == 0 {
                Seq::<Seq<u8>>::empty()
            } else {
                seq![t]
            }) + items_from(s, i + 1)
        },
    }
}

#[via_fn]
proof fn items_from_decreases(s: Seq<u8>, pos: int) {
    lemma_find_first(s, comma(), pos);
}

/// The items of a comma-separated entry list.
pub open spec fn csv_items(s: Seq<u8>) -> Seq<Seq<u8>> {
    items_from(s, 0)
}

/// `s` with leading and trailing ASCII whitespace removed.
pub fn trim_ascii(s: &[u8]) -> (r: Vec<u8>)
    ensures
        r@ == trim_spec(s@),
{
    let n = s.len();
    let mut a: usize = 0;
    while a < n && is_space_byte(s[a])
        invariant
            n == s@.len(),
            0 <= a <= n,
            trim_start_idx(s@, 0) == trim_start_idx(s@, a as int),
        decreases n - a,
    {
        a += 1;
    }
    let mut b: usize = n;
    while b > 0 && is_space_byte(s[b - 1])
        invariant
            n == s@.len(),
            0 <= b <= n,
            trim_end_idx(s@, n as int) == trim_end_idx(s@, b as int),
        decreases b,
    {
        b -= 1;
    }
    if a <= b {
        subrange_to_vec(s, a, b)
    } else {
        Vec::new()
    }
}

/// Decide `is_space` on one byte.
fn is_space_byte(b: u8) -> (r: bool)
    ensures
        r == is_space(b),
{
    b == 9 || b == 10 || b == 11 || b == 12 || b == 13 || b == 32
}

/// Split a comma-separated entry list into its trimmed, non-empty items.
pub fn split_items(text: &[u8]) -> (items: Vec<Vec<u8>>)
    ensures
        seqs_view(items@) == csv_items(text@),
{
    let n = text.len();
    let mut items: Vec<Vec<u8>> = Vec::new();
    let mut pos: usize = 0;
    let cm: Vec<u8> = vec![44u8];
    proof {
        assert(cm@ =~= comma());
        assert(seqs_view(items@) + items_from(text@, 0) =~= items_from(text@, 0));
    }
    loop
        invariant
            n == text@.len(),
            0 <= pos <= n,
            cm@ == comma(),
            seqs_view(items@) + items_from(text@, pos as int) =~= csv_items(text@),
        decreases n - pos,
    {
        match find_in(text, cm.as_slice(), pos) {
            None => {
                let piece = subrange_to_vec(text, pos, n);
                let t = trim_ascii(piece.as_slice());
                let ghost before = items@;
                if t.len() > 0 {
                    items.push(t);
                    proof {
                        assert(seqs_view(items@) =~= seqs_view(before) + seq![trim_spec(
                            text@.subrange(pos as int, n as int),
                        )]);
                    }
                }
                proof {
                    assert(seqs_view(items@) =~= csv_items(text@));
                }
                return items;
            },
            Some(i) => {
                proof {
                    lemma_find_first(text@, comma(), pos as int);
                    assert(match_at(text@, comma(), i as int));
                }
                let piece = subrange_to_vec(text, pos, i);
                let t = trim_ascii(piece.as_slice());
                let ghost before = items@;
                if t.len() > 0 {
                    items.push(t);
                    proof {
                        assert(seqs_view(items@) =~= seqs_view(before) + seq![trim_spec(
                            text@.subrange(pos as int, i as int),
                        )]);
                    }
                }
                proof {
                    assert(seqs_view(items@) + items_from(text@, i + 1) =~= csv_items(text@));
                }
                pos = i + 1;
            },
        }
    }
}

} // verus!
