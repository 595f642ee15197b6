use samplem_bridge::framing::{LineBuffer, CARRIAGE_RETURN, LINE_FEED};

fn lines_of(chunks: &[&[u8]]) -> (Vec<Vec<u8>>, Option<Vec<u8>>) {
    let mut buffer = LineBuffer::new();
    let mut lines = Vec::new();
    for chunk in chunks {
        lines.extend(buffer.push_chunk(chunk));
    }
    (lines, buffer.take_open_line())
}

#[test]
fn terminator_values() {
    assert_eq!(LINE_FEED, b'\n');
    assert_eq!(CARRIAGE_RETURN, b'\r');
}

#[test]
fn one_terminated_line() {
    let (lines, open) = lines_of(&[b"Scanning 120 files\n"]);
    assert_eq!(lines, vec![b"Scanning 120 files".to_vec()]);
    assert_eq!(open, None);
}

#[test]
fn line_split_over_chunks() {
    let (lines, open) = lines_of(&[b"ab", b"c\nde", b"", b"\n", b"tail"]);
    assert_eq!(lines, vec![b"abc".to_vec(), b"de".to_vec()]);
    assert_eq!(open, Some(b"tail".to_vec()));
}

#[test]
fn carriage_return_before_line_feed_is_dropped_once() {
    let (lines, open) = lines_of(&[b"a\r\nb\r\r\n\r\nc\rd\n"]);
    assert_eq!(
        lines,
        vec![b"a".to_vec(), b"b\r".to_vec(), b"".to_vec(), b"c\rd".to_vec()]
    );
    assert_eq!(open, None);
}

#[test]
fn carriage_return_and_line_feed_in_separate_chunks() {
    let (lines, open) = lines_of(&[b"abc\r", b"\n"]);
    assert_eq!(lines, vec![b"abc".to_vec()]);
    assert_eq!(open, None);
}

#[test]
fn open_line_keeps_its_carriage_return() {
    let (lines, open) = lines_of(&[b"x\ny\r"]);
    assert_eq!(lines, vec![b"x".to_vec()]);
    assert_eq!(open, Some(b"y\r".to_vec()));
}

#[test]
fn empty_lines_are_lines() {
    let (lines, open) = lines_of(&[b"\n\n"]);
    assert_eq!(lines, vec![Vec::<u8>::new(), Vec::<u8>::new()]);
    assert_eq!(open, None);
}

#[test]
fn empty_stream_has_no_line() {
    let (lines, open) = lines_of(&[]);
    assert!(lines.is_empty());
    assert_eq!(open, None);
    let (lines, open) = lines_of(&[b""]);
    assert!(lines.is_empty());
    assert_eq!(open, None);
}

#[test]
fn push_byte_closes_on_line_feed_only() {
    let mut buffer = LineBuffer::new();
    assert_eq!(buffer.push_byte(b'h'), None);
    assert_eq!(buffer.push_byte(b'i'), None);
    assert_eq!(buffer.push_byte(b'\r'), None);
    assert_eq!(buffer.push_byte(b'\n'), Some(b"hi".to_vec()));
    assert_eq!(buffer.push_byte(b'\n'), Some(Vec::new()));
    assert_eq!(buffer.take_open_line(), None);
}

#[test]
fn taking_the_open_line_empties_the_buffer() {
    let mut buffer = LineBuffer::new();
    assert!(buffer.push_chunk(b"rest").is_empty());
    assert_eq!(buffer.take_open_line(), Some(b"rest".to_vec()));
    assert_eq!(buffer.take_open_line(), None);
    assert_eq!(buffer.push_chunk(b"\n"), vec![Vec::<u8>::new()]);
}

#[test]
fn every_cut_of_a_stream_gives_the_same_lines() {
    let stream: &[u8] = b"one\r\ntwo\n\nthree\r\r\nfour";
    let whole = lines_of(&[stream]);
    assert_eq!(
        whole.0,
        vec![
            b"one".to_vec(),
            b"two".to_vec(),
            b"".to_vec(),
            b"three\r".to_vec()
        ]
    );
    assert_eq!(whole.1, Some(b"four".to_vec()));
    for cut in 0..=stream.len() {
        assert_eq!(lines_of(&[&stream[..cut], &stream[cut..]]), whole);
        for second in cut..=stream.len() {
            assert_eq!(
                lines_of(&[&stream[..cut], &stream[cut..second], &stream[second..]]),
                whole
            );
        }
    }
}
