use futils::entry_selected;
use futils::EntryType;

#[test]
fn test_entry_selected_by_type() {
    let no_types: Vec<EntryType> = Vec::new();
    // An empty type filter passes every entry.
    assert!(entry_selected(&no_types, false, true, false, true, false));

    let only_dirs = vec![EntryType::Dir];
    assert!(entry_selected(&only_dirs, true, false, false, true, false));
    assert!(!entry_selected(&only_dirs, false, true, false, true, false));

    let files_or_links = vec![EntryType::File, EntryType::Link];
    assert!(entry_selected(&files_or_links, false, false, true, true, false));
    assert!(!entry_selected(&files_or_links, true, false, false, true, false));
}

#[test]
fn test_entry_selected_by_name() {
    let no_types: Vec<EntryType> = Vec::new();
    // With patterns given, at least one must have matched.
    assert!(entry_selected(&no_types, false, true, false, false, true));
    assert!(!entry_selected(&no_types, false, true, false, false, false));
    // Both filters must pass.
    let only_files = vec![EntryType::File];
    assert!(entry_selected(&only_files, false, true, false, false, true));
    assert!(!entry_selected(&only_files, true, false, false, false, true));
}
