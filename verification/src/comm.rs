//! The merge-comparison of two sorted line sequences.
//!
//! Two inputs are walked in step; each line lands in one of three columns:
//! only in the first input, only in the second, or in both. Hidden columns
//! are suppressed, and a shown column is indented by one delimiter for every
//! shown column to its left.

use vstd::prelude::*;
use vstd::string::StrSliceExecFns;
use vstd::string::StringExecFns;

verus! {

/// Lexicographic order on character sequences by code point, the order in
/// which the inputs are expected to be sorted.
pub open spec fn chars_lt(a: Seq<char>, b: Seq<char>) -> bool
    decreases a.len(),
{
    if b.len() == 0 {
        false
    } else if a.len() == 0 {
        true
    } else if (a[0] as u32) < (b[0] as u32) {
        true
    } else if (a[0] as u32) > (b[0] as u32) {
        false
    } else {
        chars_lt(a.drop_first(), b.drop_first())
    }
}

/// What `str::to_lowercase` returns for the given characters.
pub uninterp spec fn lower_of(s: Seq<char>) -> Seq<char>;

/// The line as it takes part in the comparison: folded to lowercase when the
/// comparison is case-insensitive, unchanged otherwise.
pub open spec fn case_of(s: Seq<char>, insensitive: bool) -> Seq<char> {
    if insensitive {
        lower_of(s)
    } else {
        s
    }
}

/// Every line of a sequence, folded for comparison.
pub open spec fn case_seq(ls: Seq<Seq<char>>, insensitive: bool) -> Seq<Seq<char>> {
    ls.map_values(|s: Seq<char>| case_of(s, insensitive))
}

/// The output lines contributed by a line that appears only in the first
/// input.
pub open spec fn col1_lines(v: Seq<char>, show1: bool) -> Seq<Seq<char>> {
    if show1 {
        seq![v]
    } else {
        Seq::<Seq<char>>::empty()
    }
}

/// The output lines contributed by a line that appears only in the second
/// input.
pub open spec fn col2_lines(v: Seq<char>, show1: bool, show2: bool, delim: Seq<char>) -> Seq<
    Seq<char>,
> {
    if show2 {
        seq![
            (if show1 {
                delim
            } else {
                Seq::<char>::empty()
            }) + v,
        ]
    } else {
        Seq::<Seq<char>>::empty()
    }
}

/// The output lines contributed by a line that appears in both inputs.
pub open spec fn col3_lines(
    v: Seq<char>,
    show1: bool,
    show2: bool,
    show3: bool,
    delim: Seq<char>,
) -> Seq<Seq<char>> {
    if show3 {
        seq![
            (if show1 {
                delim
            } else {
                Seq::<char>::empty()
            }) + (if show2 {
                delim
            } else {
                Seq::<char>::empty()
            }) + v,
        ]
    } else {
        Seq::<Seq<char>>::empty()
    }
}

/// The full merge-comparison output for two folded, sorted line sequences.
pub open spec fn comm_out(
    a: Seq<Seq<char>>,
    b: Seq<Seq<char>>,
    show1: bool,
    show2: bool,
    show3: bool,
    delim: Seq<char>,
) -> Seq<Seq<char>>
    decreases a.len(), b.len(),
{
    if a.len() == 0 && b.len() == 0 {
        Seq::<Seq<char>>::empty()
    } else if b.len() == 0 || (a.len() > 0 && chars_lt(a[0], b[0])) {
        col1_lines(a[0], show1) + comm_out(a.drop_first(), b, show1, show2, show3, delim)
    } else if a.len() == 0 || chars_lt(b[0], a[0]) {
        col2_lines(b[0], show1, show2, delim) + comm_out(
            a,
            b.drop_first(),
            show1,
            show2,
            show3,
            delim,
        )
    } else {
        col3_lines(a[0], show1, show2, show3, delim) + comm_out(
            a.drop_first(),
            b.drop_first(),
            show1,
            show2,
            show3,
            delim,
        )
    }
}

/// Relies on `str::to_lowercase`: the result depends on the characters alone.
#[verifier::external_body]
fn lowercase(s: &str) -> (r: String)
    ensures
        r@ == lower_of(s@),
{
    s.to_lowercase()
}

enum Rel {
    Lt,
    Eq,
    Gt,
}

/// Equal prefixes do not affect the lexicographic comparison of the rests.
proof fn lemma_chars_lt_skip(a: Seq<char>, b: Seq<char>, i: int)
    requires
        0 <= i <= a.len(),
        i <= b.len(),
        forall|k: int| 0 <= k < i ==> a[k] == b[k],
    ensures
        chars_lt(a, b) == chars_lt(a.skip(i), b.skip(i)),
    decreases i,
{
    if i > 0 {
        assert(a.drop_first().skip(i - 1) =~= a.skip(i));
        assert(b.drop_first().skip(i - 1) =~= b.skip(i));
        assert(forall|k: int| 0 <= k < i - 1 ==> a.drop_first()[k] == b.drop_first()[k]);
        lemma_chars_lt_skip(a.drop_first(), b.drop_first(), i - 1);
    } else {
        assert(a.skip(0) =~= a);
        assert(b.skip(0) =~= b);
    }
}

/// Three-way lexicographic comparison of two strings by code point.
fn cmp_chars(x: &str, y: &str) -> (r: Rel)
    ensures
        r is Lt <==> chars_lt(x@, y@),
        r is Eq <==> x@ == y@,
        r is Gt <==> chars_lt(y@, x@),
{
    let nx = x.unicode_len();
    let ny = y.unicode_len();
    let mut i: usize = 0;
    while i < nx && i < ny
        invariant
            i <= nx == x@.len(),
            i <= ny == y@.len(),
            forall|k: int| 0 <= k < i ==> x@[k] == y@[k],
        decreases nx - i,
    {
        let cx = x.get_char(i) as u32;
        let cy = y.get_char(i) as u32;
        if cx < cy {
            proof {
                lemma_chars_lt_skip(x@, y@, i as int);
                lemma_chars_lt_skip(y@, x@, i as int);
                assert(chars_lt(x@.skip(i as int), y@.skip(i as int)));
                assert(!chars_lt(y@.skip(i as int), x@.skip(i as int)));
                assert(x@[i as int] != y@[i as int]);
            }
            return Rel::Lt;
        }
        if cx > cy {
            proof {
                lemma_chars_lt_skip(x@, y@, i as int);
                lemma_chars_lt_skip(y@, x@, i as int);
                assert(!chars_lt(x@.skip(i as int), y@.skip(i as int)));
                assert(chars_lt(y@.skip(i as int), x@.skip(i as int)));
                assert(x@[i as int] != y@[i as int]);
            }
            return Rel::Gt;
        }
        i = i + 1;
    }
    proof {
        lemma_chars_lt_skip(x@, y@, i as int);
        lemma_chars_lt_skip(y@, x@, i as int);
    }
    if nx == ny {
        proof {
            assert(x@ =~= y@);
        }
        Rel::Eq
    } else if nx < ny {
        proof {
            assert(chars_lt(x@.skip(i as int), y@.skip(i as int)));
            assert(!chars_lt(y@.skip(i as int), x@.skip(i as int)));
        }
        Rel::Lt
    } else {
        proof {
            assert(chars_lt(y@.skip(i as int), x@.skip(i as int)));
            assert(!chars_lt(x@.skip(i as int), y@.skip(i as int)));
        }
        Rel::Gt
    }
}

/// Folds every line of one input for comparison.
fn fold_all(lines: &Vec<String>, insensitive: bool) -> (r: Vec<String>)
    ensures
        r.deep_view() == case_seq(lines.deep_view(), insensitive),
{
    let mut r: Vec<String> = Vec::new();
    let mut i: usize = 0;
    while i < lines.len()
        invariant
            i <= lines@.len(),
            r@.len() == i,
            forall|k: int| 0 <= k < i ==> (#[trigger] r@[k])@ == case_of(lines@[k]@, insensitive),
        decreases lines@.len() - i,
    {
        if insensitive {
            r.push(lowercase(lines[i].as_str()));
        } else {
            r.push(lines[i].clone());
        }
        i = i + 1;
    }
    proof {
        assert(r.deep_view() =~= case_seq(lines.deep_view(), insensitive));
    }
    r
}

/// The merge-comparison of two sorted line sequences.
///
/// Produces the printed lines in order: shown columns only, each line
/// prefixed by one delimiter per shown column to its left. When the
/// comparison is case-insensitive, lines are folded to lowercase before being
/// compared and are printed in their folded form.
#[verifier::rlimit(60)]
pub fn comm_lines(
    lines1: &Vec<String>,
    lines2: &Vec<String>,
    show_col1: bool,
    show_col2: bool,
    show_col3: bool,
    insensitive: bool,
    delimiter: &str,
) -> (r: Vec<String>)
    ensures
        r.deep_view() == comm_out(
            case_seq(lines1.deep_view(), insensitive),
            case_seq(lines2.deep_view(), insensitive),
            show_col1,
            show_col2,
            show_col3,
            delimiter@,
        ),
{
    let a = fold_all(lines1, insensitive);
    let b = fold_all(lines2, insensitive);
    let ghost av = a.deep_view();
    let ghost bv = b.deep_view();
    let mut out: Vec<String> = Vec::new();
    let mut i: usize = 0;
    let mut j: usize = 0;
    proof {
        assert(av.skip(0) =~= av);
        assert(bv.skip(0) =~= bv);
        assert(out.deep_view() + comm_out(av, bv, show_col1, show_col2, show_col3, delimiter@)
            =~= comm_out(av, bv, show_col1, show_col2, show_col3, delimiter@));
    }
    while i < a.len() || j < b.len()
        invariant
            i <= av.len() == a@.len(),
            j <= bv.len() == b@.len(),
            av == a.deep_view(),
            bv == b.deep_view(),
            comm_out(av, bv, show_col1, show_col2, show_col3, delimiter@) == out.deep_view()
                + comm_out(
                av.skip(i as int),
                bv.skip(j as int),
                show_col1,
                show_col2,
                show_col3,
                delimiter@,
            ),
        decreases av.len() - i + bv.len() - j,
    {
        let rel = if j == b.len() {
            Rel::Lt
        } else if i == a.len() {
            Rel::Gt
        } else {
            cmp_chars(a[i].as_str(), b[j].as_str())
        };
        match rel {
            Rel::Lt => {
                // The head of the first input comes first: its own column.
                proof {
                    assert(av.skip(i as int).drop_first() =~= av.skip(i + 1));
                }
                if show_col1 {
                    out.push(a[i].clone());
                }
                i = i + 1;
            },
            Rel::Gt => {
                // The head of the second input comes first: its own column,
                // indented past a shown first column.
                proof {
                    assert(bv.skip(j as int).drop_first() =~= bv.skip(j + 1));
                }
                if show_col2 {
                    let mut line = String::new();
                    if show_col1 {
                        line.append(delimiter);
                    }
                    line.append(b[j].as_str());
                    out.push(line);
                }
                j = j + 1;
            },
            Rel::Eq => {
                // Both heads are equal: one line for the shared column.
                proof {
                    assert(av.skip(i as int).drop_first() =~= av.skip(i + 1));
                    assert(bv.skip(j as int).drop_first() =~= bv.skip(j + 1));
                }
                if show_col3 {
                    let mut line = String::new();
                    if show_col1 {
                        line.append(delimiter);
                    }
                    if show_col2 {
                        line.append(delimiter);
                    }
                    line.append(a[i].as_str());
                    out.push(line);
                }
                i = i + 1;
                j = j + 1;
            },
        }
        proof {
            assert(out.deep_view() + comm_out(
                av.skip(i as int),
                bv.skip(j as int),
                show_col1,
                show_col2,
                show_col3,
                delimiter@,
            ) =~= comm_out(av, bv, show_col1, show_col2, show_col3, delimiter@));
        }
    }
    proof {
        assert(av.skip(i as int) =~= Seq::<Seq<char>>::empty());
        assert(bv.skip(j as int) =~= Seq::<Seq<char>>::empty());
        assert(out.deep_view() =~= comm_out(av, bv, show_col1, show_col2, show_col3, delimiter@));
    }
    out
}

} // verus!
