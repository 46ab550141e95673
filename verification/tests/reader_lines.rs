use libopenai::buffer::ChunkBuffer;
use libopenai::lines::split_lines;
use libopenai::lines::LineStep;
use libopenai::lines::LineStream;
use libopenai::reader::ByteReader;
use libopenai::reader::StreamTokioAsyncRead;

#[test]
fn five_lines_and_a_partial_line() {
    // two chunks whose concatenation holds five complete lines and a
    // trailing partial one: exactly five records come out, then the
    // decoder waits for more input instead of erroring
    let mut ls = LineStream::new();
    ls.feed(b"{\"n\":1}\n{\"n\":2}\n{\"n\":3}\n{\"n\"".to_vec());
    let mut lines: Vec<Vec<u8>> = Vec::new();
    loop {
        match ls.next_line() {
            LineStep::Line(l) => lines.push(l),
            LineStep::NeedInput => break,
            LineStep::Finished => panic!("stream finished early"),
        }
    }
    assert_eq!(lines.len(), 3);
    ls.feed(b":4}\n{\"n\":5}\n{\"par".to_vec());
    loop {
        match ls.next_line() {
            LineStep::Line(l) => lines.push(l),
            LineStep::NeedInput => break,
            LineStep::Finished => panic!("stream finished early"),
        }
    }
    assert_eq!(lines.len(), 5);
    for i in 1..=5 {
        assert_eq!(lines[i - 1], format!("{{\"n\":{}}}", i).into_bytes());
    }
    // still awaiting input for the partial line
    assert_eq!(ls.next_line(), LineStep::NeedInput);
    assert!(!ls.is_finished());
}

#[test]
fn trailing_partial_line_is_flushed_on_close() {
    let mut ls = LineStream::new();
    ls.feed(b"alpha\nbeta".to_vec());
    assert_eq!(ls.next_line(), LineStep::Line(b"alpha".to_vec()));
    assert_eq!(ls.next_line(), LineStep::NeedInput);
    ls.close();
    assert_eq!(ls.next_line(), LineStep::Line(b"beta".to_vec()));
    assert_eq!(ls.next_line(), LineStep::Finished);
    assert!(ls.is_finished());
}

#[test]
fn split_lines_matches_concatenation() {
    let chunks = vec![b"one\ntw".to_vec(), b"o\nthree\n".to_vec()];
    let lines = split_lines(&chunks);
    assert_eq!(
        lines,
        vec![b"one".to_vec(), b"two".to_vec(), b"three".to_vec()]
    );
    let as_one = split_lines(&vec![b"one\ntwo\nthree\n".to_vec()]);
    assert_eq!(lines, as_one);
}

#[test]
fn byte_reader_fill_and_consume() {
    let mut r = ByteReader::new();
    assert!(r.needs_input());
    r.feed(b"hello ".to_vec());
    r.feed(b"world".to_vec());
    assert_eq!(r.fill(), b"hello world");
    r.consume(6);
    assert_eq!(r.fill(), b"world");
    r.consume(5);
    assert!(r.is_empty());
    assert!(r.needs_input());
    r.close();
    assert!(!r.needs_input());
    assert!(r.is_input_closed());
    // empty fill after close is the end-of-input signal
    assert_eq!(r.fill(), b"");
}

#[test]
fn adapter_reads_buffered_bytes_in_order() {
    let mut sr = StreamTokioAsyncRead::new(());
    sr.reader.feed(b"abcdef".to_vec());
    assert_eq!(sr.read_buffered(4), b"abcd".to_vec());
    assert_eq!(sr.read_buffered(4), b"ef".to_vec());
    assert_eq!(sr.read_buffered(4), Vec::<u8>::new());
}

#[test]
fn chunk_buffer_accounts_for_every_byte() {
    let mut buf = ChunkBuffer::new();
    assert!(buf.is_empty());
    buf.append(b"ab".to_vec());
    buf.append(b"cde".to_vec());
    assert_eq!(buf.len(), 5);
    assert_eq!(buf.as_slice(), b"abcde");
    let first = buf.take_prefix(2);
    assert_eq!(first, b"ab".to_vec());
    assert_eq!(buf.as_slice(), b"cde");
    let rest = buf.take_prefix(3);
    assert_eq!(rest, b"cde".to_vec());
    assert!(buf.is_empty());
}

#[test]
fn chunk_buffer_finds_delimiter_across_chunks() {
    let mut buf = ChunkBuffer::new();
    buf.append(b"xx\n".to_vec());
    buf.append(b"\nyy".to_vec());
    assert_eq!(buf.find(b"\n\n"), Some(2));
    assert_eq!(buf.find(b"zz"), None);
    assert_eq!(buf.find_from(b"\n\n", 3), None);
    buf.consume(3);
    assert_eq!(buf.find(b"\n\n"), None);
    assert_eq!(buf.get(0), b'\n');
}
