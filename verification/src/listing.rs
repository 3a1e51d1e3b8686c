//! Formatting cores of the directory-listing utility.

use vstd::prelude::*;
use vstd::string::StrSliceExecFns;

use crate::text::push_char;

verus! {

/// One permission character: the given letter when the bit is set, `-`
/// otherwise.
pub open spec fn perm_char(on: bool, letter: char) -> char {
    if on {
        letter
    } else {
        '-'
    }
}

/// The nine-character permission text of a Unix mode word: read, write and
/// execute for user, group and other.
pub open spec fn mode_text(mode: u32) -> Seq<char> {
    seq![
        perm_char(mode & 0o400 != 0, 'r'),
        perm_char(mode & 0o200 != 0, 'w'),
        perm_char(mode & 0o100 != 0, 'x'),
        perm_char(mode & 0o040 != 0, 'r'),
        perm_char(mode & 0o020 != 0, 'w'),
        perm_char(mode & 0o010 != 0, 'x'),
        perm_char(mode & 0o004 != 0, 'r'),
        perm_char(mode & 0o002 != 0, 'w'),
        perm_char(mode & 0o001 != 0, 'x'),
    ]
}

/// Formats a Unix mode word as its nine-character permission text, such as
/// `rwxr-xr-x` for `0o755`.
pub fn format_mode(mode: u32) -> (r: String)
    ensures
        r@ == mode_text(mode),
        r@.len() == 9,
{
    let mut s = String::new();
    push_char(&mut s, if mode & 0o400 != 0 { 'r' } else { '-' });
    push_char(&mut s, if mode & 0o200 != 0 { 'w' } else { '-' });
    push_char(&mut s, if mode & 0o100 != 0 { 'x' } else { '-' });
    push_char(&mut s, if mode & 0o040 != 0 { 'r' } else { '-' });
    push_char(&mut s, if mode & 0o020 != 0 { 'w' } else { '-' });
    push_char(&mut s, if mode & 0o010 != 0 { 'x' } else { '-' });
    push_char(&mut s, if mode & 0o004 != 0 { 'r' } else { '-' });
    push_char(&mut s, if mode & 0o002 != 0 { 'w' } else { '-' });
    push_char(&mut s, if mode & 0o001 != 0 { 'x' } else { '-' });
    proof {
        assert(s@ =~= mode_text(mode));
    }
    s
}

/// Whether a file name names a hidden entry: it opens with a dot.
pub fn is_hidden_name(name: &str) -> (r: bool)
    ensures
        r == (name@.len() > 0 && name@[0] == '.'),
{
    name.unicode_len() > 0 && name.get_char(0) == '.'
}

} // verus!
