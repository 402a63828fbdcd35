use gmap::blob::{count_lines, inspect_blob, is_binary, read_lines, split_lines};

fn lines_of_text(text: &str) -> Vec<Vec<u8>> {
    text.lines().map(|l| l.as_bytes().to_vec()).collect()
}

#[test]
fn zero_byte_marks_blob_binary() {
    assert!(is_binary(b"abc\0def"));
    assert!(is_binary(&[0u8]));
    assert!(!is_binary(b"plain text\n"));
    assert!(!is_binary(b""));
}

#[test]
fn binary_scan_stops_after_8192_bytes() {
    let mut blob = vec![b'a'; 8192];
    blob.push(0);
    assert!(!is_binary(&blob));
    blob[8191] = 0;
    assert!(is_binary(&blob));
    let mut early = vec![b'a'; 20000];
    early[0] = 0;
    assert!(is_binary(&early));
}

#[test]
fn count_lines_counts_terminated_and_partial_lines() {
    assert_eq!(count_lines(b""), 0);
    assert_eq!(count_lines(b"a"), 1);
    assert_eq!(count_lines(b"a\n"), 1);
    assert_eq!(count_lines(b"a\nb"), 2);
    assert_eq!(count_lines(b"a\nb\n"), 2);
    assert_eq!(count_lines(b"\n\n\n"), 3);
    assert_eq!(count_lines(b"a\r\nb\r\n"), 2);
}

#[test]
fn count_lines_is_zero_for_invalid_utf8() {
    assert_eq!(count_lines(&[0xff, b'\n', 0xfe, b'\n']), 0);
    assert_eq!(count_lines(&[b'a', b'\n', 0xc3]), 0);
    assert_eq!(count_lines("ä\nö\n".as_bytes()), 2);
}

#[test]
fn split_lines_drops_line_endings() {
    assert_eq!(split_lines(b"a\nb\n"), vec![b"a".to_vec(), b"b".to_vec()]);
    assert_eq!(split_lines(b"a\r\nb"), vec![b"a".to_vec(), b"b".to_vec()]);
    assert_eq!(split_lines(b"a\n\nb"), vec![b"a".to_vec(), b"".to_vec(), b"b".to_vec()]);
    assert_eq!(split_lines(b""), Vec::<Vec<u8>>::new());
}

#[test]
fn split_lines_keeps_lone_carriage_returns() {
    assert_eq!(split_lines(b"a\rb\n"), vec![b"a\rb".to_vec()]);
    assert_eq!(split_lines(b"a\r"), vec![b"a\r".to_vec()]);
    assert_eq!(split_lines(b"a\r\r\n"), vec![b"a\r".to_vec()]);
    assert_eq!(split_lines(b"\r\n"), vec![b"".to_vec()]);
}

#[test]
fn split_lines_agrees_with_the_standard_library() {
    let samples = [
        "",
        "\n",
        "one",
        "one\n",
        "one\ntwo",
        "one\r\ntwo\r\n",
        "one\rtwo\n",
        "tail\r",
        "\r\n\r\n",
        "a\n\n\nb\n",
        "ünïcödé\nline\r\n",
        "\n\r",
    ];
    for text in samples {
        assert_eq!(split_lines(text.as_bytes()), lines_of_text(text), "text {:?}", text);
        assert_eq!(count_lines(text.as_bytes()) as usize, text.lines().count(), "text {:?}", text);
    }
}

#[test]
fn read_lines_is_empty_for_invalid_utf8() {
    assert_eq!(read_lines(&[b'a', b'\n', 0xff]), Vec::<Vec<u8>>::new());
    assert_eq!(read_lines(b"a\nb"), vec![b"a".to_vec(), b"b".to_vec()]);
}

#[test]
fn inspect_blob_counts_no_lines_of_binary_blobs() {
    assert_eq!(inspect_blob(b"a\nb\n"), (false, 2));
    assert_eq!(inspect_blob(b"a\n\0b\n"), (true, 0));
    assert_eq!(inspect_blob(b""), (false, 0));
}
