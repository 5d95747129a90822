use pikr::dmenu::{deliver, read_entries, require_piped_stdin, Dmenu, Entry, EntryReader, NotPiped, ReadError};

fn labels(input: &str) -> Vec<String> {
    labels_of(read_entries(input.as_bytes()).unwrap())
}

fn labels_of(entries: Vec<Entry>) -> Vec<String> {
    entries.into_iter().map(|e| e.label).collect()
}

#[test]
fn one_entry_per_line() {
    assert_eq!(labels("a\nb\nc\n"), ["a", "b", "c"]);
}

#[test]
fn skips_empty_lines_and_handles_missing_final_newline() {
    assert_eq!(labels("a\n\n\nb"), ["a", "b"]);
}

#[test]
fn empty_input_is_no_entries() {
    assert!(labels("").is_empty());
}

#[test]
fn invalid_utf8_is_an_error() {
    assert!(read_entries(b"ok\n\xff\xfe\n").is_err());
    assert_eq!(read_entries(b"ok\n\xff\xfe\n"), Err(ReadError::InvalidUtf8));
    assert_eq!(ReadError::InvalidUtf8.message(), "stream did not contain valid UTF-8");
}

#[test]
fn carriage_return_before_newline_is_part_of_the_line_break() {
    assert_eq!(labels("a\r\nb\r\n\r\n"), ["a", "b"]);
    assert_eq!(labels("a\rb\n\r\r\n"), ["a\rb", "\r"]);
    assert_eq!(labels("a\r"), ["a\r"]);
    assert_eq!(labels("\r"), ["\r"]);
}

#[test]
fn spaces_are_no_empty_line() {
    assert_eq!(labels(" \n\t\n"), [" ", "\t"]);
}

#[test]
fn characters_of_every_width_are_kept() {
    assert_eq!(labels("z\u{e4}\u{20ac}\u{1f600}\n\u{e4}"), ["z\u{e4}\u{20ac}\u{1f600}", "\u{e4}"]);
}

#[test]
fn malformed_utf8_of_every_kind_is_refused() {
    // A cut sequence, an overlong form, a surrogate, a code beyond the last.
    for bad in [&b"\xe2\x82\n"[..], b"\xc0\x8a", b"\xed\xa0\x80", b"\xf4\x90\x80\x80", b"a\n\x80"] {
        assert_eq!(read_entries(bad), Err(ReadError::InvalidUtf8));
    }
}

#[test]
fn line_by_line_gives_what_the_whole_gives() {
    let input = "first\r\n\nsecond\n\u{20ac}\nlast";
    let mut reader = EntryReader::new();
    for raw in input.as_bytes().split_inclusive(|b| *b == b'\n') {
        reader.push_line(raw).unwrap();
    }
    assert_eq!(labels_of(reader.into_entries()), labels(input));
    assert_eq!(labels(input), ["first", "second", "\u{20ac}", "last"]);
}

#[test]
fn refused_line_changes_nothing() {
    let mut reader = EntryReader::new();
    reader.push_line(b"kept\n").unwrap();
    assert_eq!(reader.push_line(b"\xff\n"), Err(ReadError::InvalidUtf8));
    assert_eq!(labels_of(reader.into_entries()), ["kept"]);
}

#[test]
fn parts_that_end_a_line_can_be_read_apart() {
    let (first, second) = ("a\n\nb\r\n", "\nc\nd");
    let mut apart = labels(first);
    apart.extend(labels(second));
    assert_eq!(labels(&format!("{first}{second}")), apart);
}

#[test]
fn terminal_is_refused() {
    assert_eq!(require_piped_stdin(true), Err(NotPiped));
    assert_eq!(require_piped_stdin(false), Ok(()));
    assert_eq!(NotPiped.message(), "dmenu mode requires entries on stdin");
    assert!(Dmenu::default().collect(true).is_err());
    assert!(Dmenu::default().collect(false).unwrap().into_entries().is_empty());
}

#[test]
fn failed_background_read_is_reported_and_delivers_nothing() {
    let failed = deliver(Err("broken pipe".to_string()));
    assert!(failed.entries.is_empty());
    assert_eq!(failed.report.as_deref(), Some("pikr: reading stdin: broken pipe"));
    let read = deliver(Ok(vec![Entry::stdout("a".to_string())]));
    assert_eq!(labels_of(read.entries), ["a"]);
    assert_eq!(read.report, None);
}
