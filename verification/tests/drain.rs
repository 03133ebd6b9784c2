//! Lines of a stream.

use rightsize_msb::drain::{append_lines, LineSplitter, Tail, TAIL_LINES};

fn lines_of(reads: &[&[u8]]) -> Vec<String> {
    let mut splitter = LineSplitter::new();
    let mut lines = Vec::new();
    for read in reads {
        lines.extend(splitter.feed(read));
    }
    lines.extend(splitter.finish());
    lines
}

#[test]
fn lines_do_not_depend_on_how_the_bytes_were_read() {
    let whole = lines_of(&[b"one\ntwo\n\nthree"]);
    assert_eq!(whole, vec!["one", "two", "", "three"]);
    assert_eq!(lines_of(&[b"o", b"ne\ntw", b"o\n", b"\nth", b"ree"]), whole);
    assert_eq!(lines_of(&[]), Vec::<String>::new());
    assert_eq!(lines_of(&[b"x\n"]), vec!["x"]);
}

#[test]
fn a_character_cut_by_a_read_comes_out_whole_and_bad_bytes_are_replaced() {
    let bytes = "é\n".as_bytes();
    assert_eq!(lines_of(&[&bytes[..1], &bytes[1..]]), vec!["é"]);
    assert_eq!(lines_of(&[&[0xff, b'a', b'\n']]), vec!["\u{fffd}a"]);
}

#[test]
fn the_tail_keeps_the_last_lines() {
    let mut tail = Tail::new();
    assert_eq!(tail.collect(), "");
    for i in 0..TAIL_LINES + 3 {
        tail.push(i.to_string());
    }
    let wanted: Vec<String> = (3..TAIL_LINES + 3).map(|i| i.to_string()).collect();
    assert_eq!(tail.collect(), wanted.join("\n"));
}

#[test]
fn lines_are_added_with_a_line_feed_each() {
    let mut output = "x".to_string();
    append_lines(&mut output, &["a".to_string(), String::new()]);
    assert_eq!(output, "xa\n\n");
}
