use futils::count_lines_bytes;
use futils::get_start_index;
use futils::parse_num;
use futils::print_bytes;
use futils::print_lines;
use futils::TakeValue::PlusZero;
use futils::TakeValue::TakeNum;

#[test]
fn test_parse_num() {
    // Every bare integer is taken as a count from the end.
    let res = parse_num("3");
    assert!(res.is_ok());
    assert_eq!(res.unwrap(), TakeNum(-3));

    // A leading plus means an absolute position from the start.
    let res = parse_num("+3");
    assert!(res.is_ok());
    assert_eq!(res.unwrap(), TakeNum(3));

    // An explicit minus stays a count from the end.
    let res = parse_num("-3");
    assert!(res.is_ok());
    assert_eq!(res.unwrap(), TakeNum(-3));

    // Zero stays zero.
    let res = parse_num("0");
    assert!(res.is_ok());
    assert_eq!(res.unwrap(), TakeNum(0));

    // Plus zero is set apart.
    let res = parse_num("+0");
    assert!(res.is_ok());
    assert_eq!(res.unwrap(), PlusZero);

    // The boundaries of the representable range.
    let res = parse_num(&i64::MAX.to_string());
    assert!(res.is_ok());
    assert_eq!(res.unwrap(), TakeNum(i64::MIN + 1));

    let res = parse_num(&(i64::MIN + 1).to_string());
    assert!(res.is_ok());
    assert_eq!(res.unwrap(), TakeNum(i64::MIN + 1));

    let res = parse_num(&format!("+{}", i64::MAX));
    assert!(res.is_ok());
    assert_eq!(res.unwrap(), TakeNum(i64::MAX));

    let res = parse_num(&i64::MIN.to_string());
    assert!(res.is_ok());
    assert_eq!(res.unwrap(), TakeNum(i64::MIN));

    // A floating-point token is invalid.
    let res = parse_num("3.14");
    assert!(res.is_err());
    assert_eq!(res.unwrap_err().to_string(), "3.14");

    // A non-numeric token is invalid.
    let res = parse_num("foo");
    assert!(res.is_err());
    assert_eq!(res.unwrap_err().to_string(), "foo");
}

#[test]
fn test_parse_num_more_tokens() {
    assert_eq!(parse_num("5"), Ok(TakeNum(-5)));
    assert_eq!(parse_num("+5"), Ok(TakeNum(5)));
    assert_eq!(parse_num("-5"), Ok(TakeNum(-5)));
    assert_eq!(parse_num("-0"), Ok(TakeNum(0)));
    assert_eq!(parse_num(""), Err(String::new()));
    assert_eq!(parse_num("+"), Err("+".to_string()));
    assert_eq!(parse_num("-"), Err("-".to_string()));
    assert_eq!(parse_num(" 3"), Err(" 3".to_string()));
    // One past the largest magnitude that a signed token may carry.
    assert_eq!(
        parse_num("9223372036854775808"),
        Err("9223372036854775808".to_string())
    );
    assert_eq!(
        parse_num("-9223372036854775809"),
        Err("-9223372036854775809".to_string())
    );
}

#[test]
fn test_count_lines_bytes() {
    // One line of twenty-four bytes, marker included.
    let one = b"twenty-three characters\n";
    let res = count_lines_bytes(one);
    assert_eq!(res, (1, 24));

    // Twelve lines, sixty-three bytes in all.
    let twelve = b"abcd\nabcd\nabcd\nabcd\nabcd\nabcd\nabcd\nabcd\nabcd\nabcd\nabcd\nabcdefg\n";
    let res = count_lines_bytes(twelve);
    assert_eq!(res, (12, 63));

    // An empty input measures as nothing at all.
    assert_eq!(count_lines_bytes(b""), (0, 0));

    // A trailing fragment without its marker still counts as a line.
    assert_eq!(count_lines_bytes(b"ab\ncd"), (2, 5));
}

#[test]
fn test_get_start_index() {
    // Plus zero on an empty input selects nothing.
    assert_eq!(get_start_index(&PlusZero, 0), None);

    // Plus zero on a non-empty input selects the very first unit.
    assert_eq!(get_start_index(&PlusZero, 1), Some(0));

    // A zero count selects nothing.
    assert_eq!(get_start_index(&TakeNum(0), 1), None);

    // Nothing can be taken from an empty input.
    assert_eq!(get_start_index(&TakeNum(1), 0), None);

    // A start position past the total selects nothing.
    assert_eq!(get_start_index(&TakeNum(2), 1), None);

    // A start position within the total is converted to a zero-based index.
    assert_eq!(get_start_index(&TakeNum(1), 10), Some(0));
    assert_eq!(get_start_index(&TakeNum(2), 10), Some(1));
    assert_eq!(get_start_index(&TakeNum(3), 10), Some(2));

    // A negative count selects the index that far from the end.
    assert_eq!(get_start_index(&TakeNum(-1), 10), Some(9));
    assert_eq!(get_start_index(&TakeNum(-2), 10), Some(8));
    assert_eq!(get_start_index(&TakeNum(-3), 10), Some(7));

    // A negative count past the whole input selects everything.
    assert_eq!(get_start_index(&TakeNum(-20), 10), Some(0));
}

#[test]
fn test_get_start_index_boundaries() {
    // The count exactly equals the total.
    assert_eq!(get_start_index(&TakeNum(10), 10), Some(9));
    // A negative count exactly consuming the total starts at the beginning.
    assert_eq!(get_start_index(&TakeNum(-10), 10), Some(0));
}

#[test]
fn test_print_lines_from_the_start_is_identity() {
    // Resolving to start index zero reproduces the input byte for byte.
    let data = b"alpha\nbeta\ngamma";
    let out = print_lines(data, &PlusZero, 3);
    assert_eq!(out, data.to_vec());
    let out = print_lines(data, &TakeNum(-3), 3);
    assert_eq!(out, data.to_vec());
}

#[test]
fn test_tail_extraction_end_to_end() {
    // Ten lines; a bare count of three emits exactly the last three lines.
    let data = b"line 1\nline 2\nline 3\nline 4\nline 5\nline 6\nline 7\nline 8\nline 9\nline 10\n";
    let (total_lines, total_bytes) = count_lines_bytes(data);
    assert_eq!((total_lines, total_bytes), (10, 71));

    let tv = parse_num("-3").unwrap();
    let out = print_lines(data, &tv, total_lines);
    assert_eq!(out, b"line 8\nline 9\nline 10\n".to_vec());

    // An absolute position of eight emits lines eight through ten.
    let tv = parse_num("+8").unwrap();
    let out = print_lines(data, &tv, total_lines);
    assert_eq!(out, b"line 8\nline 9\nline 10\n".to_vec());

    // A zero count emits nothing.
    let tv = parse_num("0").unwrap();
    let out = print_lines(data, &tv, total_lines);
    assert!(out.is_empty());

    // Plus zero on an empty input emits nothing.
    let tv = parse_num("+0").unwrap();
    let out = print_lines(b"", &tv, 0);
    assert!(out.is_empty());
    let out = print_bytes(b"", &tv, 0);
    assert!(out.is_empty());

    // A byte count of five emits exactly the last five bytes.
    let tv = parse_num("-5").unwrap();
    let out = print_bytes(data, &tv, total_bytes);
    assert_eq!(out, b"e 10\n".to_vec());
}

#[test]
fn test_extraction_is_defensive_about_the_total() {
    // A start index past the real content yields nothing rather than a fault.
    let data = b"one\ntwo\n";
    let out = print_lines(data, &TakeNum(7), 100);
    assert!(out.is_empty());
    let out = print_bytes(data, &TakeNum(50), 100);
    assert!(out.is_empty());
}

#[test]
fn test_print_bytes_can_cut_mid_character() {
    // A byte cut may split a multi-byte character; the raw bytes come back.
    let data = "ä".as_bytes();
    assert_eq!(data.len(), 2);
    let out = print_bytes(data, &TakeNum(-1), 2);
    assert_eq!(out, vec![data[1]]);
}

