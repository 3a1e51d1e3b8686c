use futils::comm_lines;

fn lines(items: &[&str]) -> Vec<String> {
    items.iter().map(|s| s.to_string()).collect()
}

#[test]
fn test_comm_lines_three_columns() {
    let a = lines(&["apple", "banana", "cherry"]);
    let b = lines(&["banana", "date"]);
    let out = comm_lines(&a, &b, true, true, true, false, "\t");
    assert_eq!(out, lines(&["apple", "\t\tbanana", "cherry", "\tdate"]));
}

#[test]
fn test_comm_lines_suppressed_columns() {
    let a = lines(&["apple", "banana", "cherry"]);
    let b = lines(&["banana", "date"]);
    // Only the shared column, without indentation from hidden columns.
    let out = comm_lines(&a, &b, false, false, true, false, "\t");
    assert_eq!(out, lines(&["banana"]));
    // Second column hidden: its lines vanish entirely.
    let out = comm_lines(&a, &b, true, false, true, false, "\t");
    assert_eq!(out, lines(&["apple", "\tbanana", "cherry"]));
}

#[test]
fn test_comm_lines_case_insensitive() {
    // Case folding makes the two heads equal; the folded form is printed.
    let a = lines(&["BANANA"]);
    let b = lines(&["banana"]);
    let out = comm_lines(&a, &b, true, true, true, true, "\t");
    assert_eq!(out, lines(&["\t\tbanana"]));
    // Without folding they differ and land in their own columns.
    let out = comm_lines(&a, &b, true, true, true, false, "\t");
    assert_eq!(out, lines(&["BANANA", "\tbanana"]));
}

#[test]
fn test_comm_lines_custom_delimiter() {
    let a = lines(&["x"]);
    let b = lines(&["y"]);
    let out = comm_lines(&a, &b, true, true, true, false, "--");
    assert_eq!(out, lines(&["x", "--y"]));
}

#[test]
fn test_comm_lines_empty_inputs() {
    let none: Vec<String> = Vec::new();
    let b = lines(&["solo"]);
    let out = comm_lines(&none, &b, true, true, true, false, "\t");
    assert_eq!(out, lines(&["\tsolo"]));
    let out = comm_lines(&none, &none, true, true, true, false, "\t");
    assert!(out.is_empty());
}
