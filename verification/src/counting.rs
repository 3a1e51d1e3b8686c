//! Aggregate counting of lines, words, bytes and characters in one input.

use vstd::prelude::*;
use vstd::string::StrSliceExecFns;
use vstd::string::StringExecFns;
use vstd::string::StringSliceAdditionalSpecFns;

use crate::text::dec_str;
use crate::text::dec_string;
use crate::text::push_char;
use crate::text::spaces;

verus! {

/// The four counts that one input contributes: lines, whitespace-separated
/// words, bytes, and characters.
#[derive(Clone, Copy, Debug, PartialEq, Eq, Structural)]
pub struct FileInfo {
    pub num_lines: usize,
    pub num_words: usize,
    pub num_bytes: usize,
    pub num_chars: usize,
}

/// Whether `c` carries the Unicode `White_Space` property, the separator
/// notion that word counting goes by.
pub open spec fn is_unicode_whitespace(c: char) -> bool {
    let u = c as u32;
    (9 <= u && u <= 13) || u == 32 || u == 0x85 || u == 0xA0 || u == 0x1680 || (0x2000 <= u && u
        <= 0x200A) || u == 0x2028 || u == 0x2029 || u == 0x202F || u == 0x205F || u == 0x3000
}

/// The number of newline characters in `s`.
pub open spec fn newline_chars(s: Seq<char>) -> int
    decreases s.len(),
{
    if s.len() == 0 {
        0
    } else {
        newline_chars(s.drop_last()) + if s.last() == '\n' {
            1int
        } else {
            0int
        }
    }
}

/// The number of lines in `s`: one per newline character, plus one for a
/// trailing fragment that lacks its marker.
pub open spec fn lines_in(s: Seq<char>) -> int {
    newline_chars(s) + if s.len() > 0 && s.last() != '\n' {
        1int
    } else {
        0int
    }
}

/// The number of maximal runs of non-whitespace characters in `s`, counted at
/// the position where each run begins.
pub open spec fn word_count(s: Seq<char>) -> int
    decreases s.len(),
{
    if s.len() == 0 {
        0
    } else {
        word_count(s.drop_last()) + if !is_unicode_whitespace(s.last()) && (s.len() == 1
            || is_unicode_whitespace(s[s.len() - 2])) {
            1int
        } else {
            0int
        }
    }
}

/// The exec counterpart of [`is_unicode_whitespace`].
fn is_whitespace_char(c: char) -> (r: bool)
    ensures
        r == is_unicode_whitespace(c),
{
    let u = c as u32;
    (9 <= u && u <= 13) || u == 32 || u == 0x85 || u == 0xA0 || u == 0x1680 || (0x2000 <= u && u
        <= 0x200A) || u == 0x2028 || u == 0x2029 || u == 0x202F || u == 0x205F || u == 0x3000
}

proof fn lemma_newline_chars_le_len(s: Seq<char>)
    ensures
        newline_chars(s) <= s.len(),
    decreases s.len(),
{
    if s.len() > 0 {
        lemma_newline_chars_le_len(s.drop_last());
    }
}

/// Counts lines, words, bytes and characters of one input in a single
/// forward pass.
pub fn count(text: &str) -> (r: FileInfo)
    ensures
        r.num_lines == lines_in(text@),
        r.num_words == word_count(text@),
        r.num_bytes == text.spec_bytes().len() as usize,
        r.num_chars == text@.len(),
{
    let num_bytes = text.len();
    let n = text.unicode_len();
    let mut newlines: usize = 0;
    let mut num_words: usize = 0;
    let mut prev_ws = true;
    let mut i: usize = 0;
    while i < n
        invariant
            0 <= i <= n == text@.len(),
            newlines <= i,
            num_words <= i,
            newlines as int == newline_chars(text@.take(i as int)),
            num_words as int == word_count(text@.take(i as int)),
            prev_ws == (i == 0 || is_unicode_whitespace(text@[i - 1])),
        decreases n - i,
    {
        let c = text.get_char(i);
        proof {
            assert(text@.take(i + 1).drop_last() =~= text@.take(i as int));
            assert(text@.take(i + 1).last() == text@[i as int]);
        }
        if c == '\n' {
            newlines = newlines + 1;
        }
        let ws = is_whitespace_char(c);
        if !ws && prev_ws {
            num_words = num_words + 1;
        }
        prev_ws = ws;
        i = i + 1;
    }
    proof {
        assert(text@.take(n as int) =~= text@);
        lemma_newline_chars_le_len(text@.drop_last());
    }
    let num_lines = if n > 0 && text.get_char(n - 1) != '\n' {
        newlines + 1
    } else {
        newlines
    };
    FileInfo { num_lines, num_words, num_bytes, num_chars: n }
}

/// The text of one output field: the value rendered in base 10 and
/// right-aligned in a width of eight, or nothing when the field is hidden.
pub open spec fn field_text(value: int, show: bool) -> Seq<char> {
    if show {
        spaces(8 - dec_str(value).len()) + dec_str(value)
    } else {
        Seq::<char>::empty()
    }
}

/// Formats one count for the tabular output: right-aligned in a width of
/// eight when shown, empty when hidden.
pub fn format_field(value: usize, show: bool) -> (r: String)
    ensures
        r@ == field_text(value as int, show),
{
    if !show {
        let r = String::new();
        proof {
            assert(r@ =~= field_text(value as int, false));
        }
        return r;
    }
    let digits = dec_string(value);
    let len = digits.as_str().unicode_len();
    let mut s = String::new();
    let mut p: usize = len;
    while p < 8
        invariant
            len <= p,
            p <= 8 || p == len,
            s@ =~= spaces(p - len),
        decreases 8 - p,
    {
        push_char(&mut s, ' ');
        proof {
            assert(s@ =~= spaces(p + 1 - len));
        }
        p = p + 1;
    }
    proof {
        assert(s@ =~= spaces(8 - len));
    }
    s.append(digits.as_str());
    s
}

/// Builds the output line for one input: the shown count fields in order,
/// followed by the file name unless the input is the standard-input
/// placeholder `-`.
pub fn fileinfo_line(
    info: &FileInfo,
    lines: bool,
    words: bool,
    bytes: bool,
    chars: bool,
    filename: &str,
) -> (r: String)
    ensures
        r@ == field_text(info.num_lines as int, lines) + field_text(info.num_words as int, words)
            + field_text(info.num_bytes as int, bytes) + field_text(info.num_chars as int, chars)
            + (if filename@ == seq!['-'] {
            Seq::<char>::empty()
        } else {
            seq![' '] + filename@
        }),
{
    let mut s = format_field(info.num_lines, lines);
    let f_words = format_field(info.num_words, words);
    let f_bytes = format_field(info.num_bytes, bytes);
    let f_chars = format_field(info.num_chars, chars);
    s.append(f_words.as_str());
    s.append(f_bytes.as_str());
    s.append(f_chars.as_str());
    let is_stdin = filename.unicode_len() == 1 && filename.get_char(0) == '-';
    if !is_stdin {
        push_char(&mut s, ' ');
        s.append(filename);
    }
    proof {
        if is_stdin {
            assert(filename@ =~= seq!['-']);
        } else {
            assert(filename@ != seq!['-']);
            assert(s@ =~= field_text(info.num_lines as int, lines) + field_text(
                info.num_words as int,
                words,
            ) + field_text(info.num_bytes as int, bytes) + field_text(info.num_chars as int, chars)
                + (seq![' '] + filename@));
        }
    }
    s
}

} // verus!
