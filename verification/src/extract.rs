//! The tail-extraction engine.
//!
//! An input is modelled as its full byte content. A first forward pass
//! measures the total line and byte counts; the resolved start index then
//! selects the trailing portion, by whole lines or by a raw byte cut.

use vstd::prelude::*;

use crate::offset::get_start_index;
use crate::offset::start_index;
use crate::offset::TakeValue;

verus! {

/// The position where the line after the one containing position `p` starts:
/// one past the next newline byte at or after `p`, or the end of the data
/// when no newline follows.
pub open spec fn next_line_start(data: Seq<u8>, p: int) -> int
    recommends
        0 <= p <= data.len(),
    decreases data.len() - p,
        when p <= data.len()
{
    if p >= data.len() {
        data.len() as int
    } else if data[p] == 10u8 {
        p + 1
    } else {
        next_line_start(data, p + 1)
    }
}

/// The byte position where the `k`-th line (0-based) starts. Saturates at the
/// end of the data when fewer than `k` lines exist.
pub open spec fn line_start(data: Seq<u8>, k: nat) -> int
    decreases k,
{
    if k == 0 {
        0
    } else {
        next_line_start(data, line_start(data, (k - 1) as nat))
    }
}

/// The trailing portion of the data from the start of the `k`-th line on:
/// every line with index at least `k`, verbatim, markers included.
pub open spec fn lines_from(data: Seq<u8>, k: nat) -> Seq<u8> {
    data.subrange(line_start(data, k), data.len() as int)
}

/// The trailing portion of the data from byte position `k` on; empty when `k`
/// lies past the end.
pub open spec fn bytes_from(data: Seq<u8>, k: int) -> Seq<u8>
    recommends
        0 <= k,
{
    if k <= data.len() {
        data.subrange(k, data.len() as int)
    } else {
        Seq::<u8>::empty()
    }
}

/// The number of newline bytes in the data.
pub open spec fn newline_count(data: Seq<u8>) -> int
    decreases data.len(),
{
    if data.len() == 0 {
        0
    } else {
        newline_count(data.drop_last()) + if data.last() == 10u8 {
            1int
        } else {
            0int
        }
    }
}

/// The number of lines in the data: one per newline byte, plus one for a
/// trailing fragment that lacks its marker.
pub open spec fn line_count(data: Seq<u8>) -> int {
    newline_count(data) + if data.len() > 0 && data.last() != 10u8 {
        1int
    } else {
        0int
    }
}

/// When the first newline at or after `p` sits at position `i`, the next line
/// starts right behind it.
proof fn lemma_next_line_start_found(data: Seq<u8>, p: int, i: int)
    requires
        0 <= p <= i < data.len(),
        forall|j: int| p <= j < i ==> data[j] != 10u8,
        data[i] == 10u8,
    ensures
        next_line_start(data, p) == i + 1,
    decreases i - p,
{
    if p < i {
        lemma_next_line_start_found(data, p + 1, i);
    }
}

/// When no newline follows position `p`, the next line start saturates at the
/// end of the data.
proof fn lemma_next_line_start_none(data: Seq<u8>, p: int)
    requires
        0 <= p <= data.len(),
        forall|j: int| p <= j < data.len() ==> data[j] != 10u8,
    ensures
        next_line_start(data, p) == data.len(),
    decreases data.len() - p,
{
    if p < data.len() {
        lemma_next_line_start_none(data, p + 1);
    }
}

/// Once some line start has reached the end of the data, every later line
/// starts there as well.
proof fn lemma_line_start_saturates(data: Seq<u8>, k: nat, m: nat)
    requires
        k <= m,
        line_start(data, k) == data.len(),
    ensures
        line_start(data, m) == data.len(),
    decreases m - k,
{
    if k < m {
        lemma_line_start_saturates(data, k, (m - 1) as nat);
    }
}

proof fn lemma_newline_count_le_len(data: Seq<u8>)
    ensures
        newline_count(data) <= data.len(),
    decreases data.len(),
{
    if data.len() > 0 {
        lemma_newline_count_le_len(data.drop_last());
    }
}

/// Line-mode extraction that begins at the very first line reproduces the
/// whole input, byte for byte.
pub proof fn lemma_lines_from_zero(data: Seq<u8>)
    ensures
        lines_from(data, 0) == data,
{
    assert(lines_from(data, 0) =~= data);
}

/// Measures one input: a single forward pass yields its total line count and
/// total byte count, line-ending markers included.
pub fn count_lines_bytes(data: &[u8]) -> (r: (i64, i64))
    requires
        data@.len() <= i64::MAX,
    ensures
        r.0 == line_count(data@),
        r.1 == data@.len(),
{
    let mut newlines: i64 = 0;
    let mut i: usize = 0;
    while i < data.len()
        invariant
            0 <= i <= data@.len() <= i64::MAX,
            0 <= newlines <= i,
            newlines == newline_count(data@.take(i as int)),
        decreases data@.len() - i,
    {
        proof {
            assert(data@.take(i + 1).drop_last() =~= data@.take(i as int));
            assert(data@.take(i + 1).last() == data@[i as int]);
        }
        if data[i] == 10 {
            newlines = newlines + 1;
        }
        i = i + 1;
    }
    proof {
        assert(data@.take(data@.len() as int) =~= data@);
        lemma_newline_count_le_len(data@.drop_last());
    }
    let lines = if data.len() > 0 && data[data.len() - 1] != 10 {
        newlines + 1
    } else {
        newlines
    };
    (lines, data.len() as i64)
}

/// Line-mode extraction: resolves the offset against `total_lines` and
/// returns every line from the resolved start line on, verbatim. Returns
/// nothing when the offset resolves to nothing, and saturates harmlessly when
/// the start lies past the actual number of lines.
pub fn print_lines(data: &[u8], num_lines: &TakeValue, total_lines: i64) -> (r: Vec<u8>)
    requires
        total_lines >= 0,
    ensures
        (match start_index(*num_lines, total_lines as int) {
            Option::None => r@ == Seq::<u8>::empty(),
            Option::Some(s) => r@ == lines_from(data@, s as nat),
        }),
{
    let mut out: Vec<u8> = Vec::new();
    if let Some(start) = get_start_index(num_lines, total_lines) {
        let ghost s = start_index(*num_lines, total_lines as int)->0;
        let mut lines: u64 = 0;
        let mut i: usize = 0;
        while lines < start && i < data.len()
            invariant
                0 <= i <= data@.len(),
                lines <= start,
                start as int == s,
                0 <= line_start(data@, lines as nat) <= i,
                forall|j: int| line_start(data@, lines as nat) <= j < i ==> data@[j] != 10u8,
                lines < start || i == line_start(data@, lines as nat),
            decreases data@.len() - i,
        {
            if data[i] == 10 {
                proof {
                    lemma_next_line_start_found(data@, line_start(data@, lines as nat), i as int);
                }
                lines = lines + 1;
            }
            i = i + 1;
        }
        proof {
            if lines < start {
                lemma_next_line_start_none(data@, line_start(data@, lines as nat));
                lemma_line_start_saturates(data@, (lines + 1) as nat, s as nat);
            }
            assert(line_start(data@, s as nat) == i);
        }
        let mut j: usize = i;
        while j < data.len()
            invariant
                i <= j <= data@.len(),
                out@ == data@.subrange(i as int, j as int),
            decreases data@.len() - j,
        {
            proof {
                assert(data@.subrange(i as int, j + 1) =~= data@.subrange(i as int, j as int).push(
                    data@[j as int],
                ));
            }
            out.push(data[j]);
            j = j + 1;
        }
        proof {
            assert(out@ == lines_from(data@, s as nat));
        }
    } else {
        proof {
            assert(out@ =~= Seq::<u8>::empty());
        }
    }
    out
}

/// Byte-mode extraction: resolves the offset against `total_bytes`, cuts at
/// the resolved absolute byte position and returns every remaining byte as
/// one block. Returns nothing when the offset resolves to nothing; a cut past
/// the end of the data yields nothing as well.
pub fn print_bytes(data: &[u8], num_bytes: &TakeValue, total_bytes: i64) -> (r: Vec<u8>)
    requires
        total_bytes >= 0,
    ensures
        (match start_index(*num_bytes, total_bytes as int) {
            Option::None => r@ == Seq::<u8>::empty(),
            Option::Some(s) => r@ == bytes_from(data@, s),
        }),
{
    let mut out: Vec<u8> = Vec::new();
    if let Some(start) = get_start_index(num_bytes, total_bytes) {
        let ghost s = start_index(*num_bytes, total_bytes as int)->0;
        if start <= data.len() as u64 {
            let mut j: usize = start as usize;
            while j < data.len()
                invariant
                    start as int == s,
                    s <= j <= data@.len(),
                    out@ == data@.subrange(s, j as int),
                decreases data@.len() - j,
            {
                proof {
                    assert(data@.subrange(s, j + 1) =~= data@.subrange(s, j as int).push(
                        data@[j as int],
                    ));
                }
                out.push(data[j]);
                j = j + 1;
            }
        }
        proof {
            assert(out@ == bytes_from(data@, s));
        }
    } else {
        proof {
            assert(out@ =~= Seq::<u8>::empty());
        }
    }
    out
}

} // verus!
