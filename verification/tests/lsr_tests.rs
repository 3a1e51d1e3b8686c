use futils::format_mode;
use futils::listing::is_hidden_name;

#[test]
fn test_format_mode() {
    assert_eq!(format_mode(0o755), "rwxr-xr-x");
    assert_eq!(format_mode(0o421), "r---w---x");
}

#[test]
fn test_format_mode_extremes() {
    assert_eq!(format_mode(0o777), "rwxrwxrwx");
    assert_eq!(format_mode(0o000), "---------");
    // Bits above the permission field are ignored.
    assert_eq!(format_mode(0o100644), "rw-r--r--");
}

#[test]
fn test_is_hidden_name() {
    assert!(is_hidden_name(".hidden"));
    assert!(is_hidden_name("."));
    assert!(!is_hidden_name("visible.txt"));
    assert!(!is_hidden_name(""));
}
