//! Verified cores of a small collection of file utilities.
//!
//! The heart of the crate is the tail-extraction engine: a signed, possibly
//! elided offset is parsed into a [`TakeValue`], resolved against the total
//! number of lines or bytes of an input, and the trailing portion of the
//! content is extracted in line or byte granularity. Around it stand the
//! verified cores of the sibling utilities: aggregate counting of lines,
//! words, bytes and characters; the merge-comparison of two sorted line
//! sequences; the selection rule of the directory search; and
//! permission-string formatting.
//!
//! All I/O (opening files, walking directories, reading metadata) lives
//! outside this crate; the functions here work on plain values and carry
//! machine-checked contracts.

pub mod comm;
pub mod counting;
pub mod extract;
pub mod finding;
pub mod listing;
pub mod offset;
pub mod text;

pub use comm::comm_lines;
pub use counting::count;
pub use counting::format_field;
pub use counting::FileInfo;
pub use extract::count_lines_bytes;
pub use extract::print_bytes;
pub use extract::print_lines;
pub use finding::entry_selected;
pub use finding::EntryType;
pub use listing::format_mode;
pub use offset::get_start_index;
pub use offset::parse_num;
pub use offset::TakeValue;
