//! The selection rule of the directory-search utility.
//!
//! Walking the tree, matching names against patterns and asking the file
//! system for an entry's type happen outside; the decision which entries are
//! reported is made here, on plain values.

use vstd::prelude::*;

verus! {

/// The kind of directory entry a search can be restricted to.
#[derive(Clone, Copy, Debug, PartialEq, Eq, Structural)]
pub enum EntryType {
    Dir,
    File,
    Link,
}

/// Whether an entry of the described type passes the type filter: an empty
/// filter passes everything, otherwise some requested kind must fit.
pub open spec fn type_passes(
    types: Seq<EntryType>,
    is_dir: bool,
    is_file: bool,
    is_link: bool,
) -> bool {
    types.len() == 0 || (types.contains(EntryType::Dir) && is_dir) || (types.contains(
        EntryType::File,
    ) && is_file) || (types.contains(EntryType::Link) && is_link)
}

/// Whether an entry passes both filters: the type filter, and the name
/// filter, which passes everything when no pattern was given and otherwise
/// needs at least one pattern to have matched the entry's name.
pub open spec fn entry_passes(
    types: Seq<EntryType>,
    is_dir: bool,
    is_file: bool,
    is_link: bool,
    no_patterns: bool,
    name_matched: bool,
) -> bool {
    type_passes(types, is_dir, is_file, is_link) && (no_patterns || name_matched)
}

fn contains_type(types: &Vec<EntryType>, t: EntryType) -> (r: bool)
    ensures
        r == types@.contains(t),
{
    let mut i: usize = 0;
    while i < types.len()
        invariant
            i <= types@.len(),
            forall|k: int| 0 <= k < i ==> types@[k] != t,
        decreases types@.len() - i,
    {
        if types[i] == t {
            return true;
        }
        i = i + 1;
    }
    false
}

/// Decides whether one directory entry is reported.
///
/// `is_dir`, `is_file` and `is_link` describe the entry's type;
/// `no_patterns` says that no name pattern was given, and `name_matched`
/// that at least one given pattern matched the entry's name.
pub fn entry_selected(
    types: &Vec<EntryType>,
    is_dir: bool,
    is_file: bool,
    is_link: bool,
    no_patterns: bool,
    name_matched: bool,
) -> (r: bool)
    ensures
        r == entry_passes(types@, is_dir, is_file, is_link, no_patterns, name_matched),
{
    let type_ok = types.len() == 0 || (contains_type(types, EntryType::Dir) && is_dir) || (
    contains_type(types, EntryType::File) && is_file) || (contains_type(types, EntryType::Link)
        && is_link);
    let name_ok = no_patterns || name_matched;
    type_ok && name_ok
}

} // verus!
