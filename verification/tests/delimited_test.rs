use bore::delimited::{Reception, DELIMITER};
use bore::shared::{Delimited, ReceiveError, MAX_FRAME_LENGTH};

fn frame(bytes: &[u8]) -> Result<Reception, ReceiveError> {
    Ok(Reception::Frame(bytes.to_vec()))
}

#[test]
fn very_long_frame() {
    let mut stream = Delimited::new();
    // Slowly send a very long frame.
    for _ in 0..10 {
        stream.feed(&[42u8; 100000]);
        if stream.recv() == Err(ReceiveError::Frame) {
            assert_eq!(stream.recv(), Ok(Reception::Ended));
            return;
        }
    }
    panic!("did not exit after a 1 MB frame");
}

#[test]
fn longest_frame_and_one_byte_more() {
    let text = "x".repeat(MAX_FRAME_LENGTH);
    let mut stream = Delimited::new();
    let bytes = stream.send(&text);
    assert_eq!(bytes.len(), MAX_FRAME_LENGTH + 1);
    stream.feed(&bytes);
    assert_eq!(stream.recv(), frame(text.as_bytes()));
    assert_eq!(stream.recv(), Ok(Reception::More));

    let mut stream = Delimited::new();
    stream.feed(&vec![b'x'; MAX_FRAME_LENGTH]);
    assert_eq!(stream.recv(), Ok(Reception::More));
    stream.feed(b"x");
    assert_eq!(stream.recv(), Err(ReceiveError::Frame));
}

#[test]
fn rest_of_a_long_frame_is_skipped() {
    let mut stream = Delimited::new();
    stream.feed(&[42u8; 600]);
    assert_eq!(stream.recv(), Err(ReceiveError::Frame));
    assert_eq!(stream.recv(), Ok(Reception::Ended));
    assert_eq!(stream.recv(), Ok(Reception::More));
    stream.feed(b"tail");
    assert_eq!(stream.recv(), Ok(Reception::More));
    stream.feed(b"tail\0next\0");
    assert_eq!(stream.recv(), frame(b"next"));
    assert_eq!(stream.recv(), Ok(Reception::More));
}

#[test]
fn text_is_sent_with_a_delimiter() {
    let stream = Delimited::new();
    assert_eq!(stream.send("\"Heartbeat\""), b"\"Heartbeat\"\0".to_vec());
    assert_eq!(stream.send(""), vec![DELIMITER]);
    assert_eq!(stream.send("\u{e9}"), vec![0xc3, 0xa9, 0]);
}

#[test]
fn reads_of_eight_bytes() {
    let mut stream = Delimited::new();
    let mut bytes = stream.send("{\"Hello\":8080}");
    bytes.extend(stream.send("\"Heartbeat\""));
    let mut received = Vec::new();
    for chunk in bytes.chunks(8) {
        assert!(stream.feed(chunk));
        loop {
            match stream.recv().unwrap() {
                Reception::Frame(frame) => received.push(frame),
                _ => break,
            }
        }
    }
    assert_eq!(received, vec![b"{\"Hello\":8080}".to_vec(), b"\"Heartbeat\"".to_vec()]);
    assert_eq!(stream.into_parts(), Vec::<u8>::new());
}

#[test]
fn end_of_the_stream() {
    let mut stream = Delimited::new();
    assert_eq!(stream.recv(), Ok(Reception::More));
    assert!(stream.feed(b"one\0two"));
    assert_eq!(stream.recv(), frame(b"one"));
    assert_eq!(stream.recv(), Ok(Reception::More));
    assert!(stream.feed(b""));
    assert_eq!(stream.recv(), frame(b"two"));
    assert_eq!(stream.recv(), Ok(Reception::Ended));
    assert_eq!(stream.recv(), Ok(Reception::More));
    assert!(!stream.feed(b""));
    assert!(stream.feed(b"three\0"));
    assert_eq!(stream.recv(), frame(b"three"));
}

#[test]
fn texts_arrive_in_pieces_of_any_size() {
    let texts = ["{\"Hello\":8080}", "", "\"Heartbeat\"", "\"\u{e9}\""];
    for size in [1, 2, 3, 8, 1000] {
        let mut stream = Delimited::new();
        let bytes: Vec<u8> = texts.iter().flat_map(|text| stream.send(text)).collect();
        let mut pieces: Vec<&[u8]> = bytes.chunks(size).collect();
        pieces.push(&[]);
        let mut pieces = pieces.into_iter();
        let mut received = Vec::new();
        loop {
            match stream.recv().unwrap() {
                Reception::Frame(frame) => received.push(String::from_utf8(frame).unwrap()),
                Reception::More => assert!(stream.feed(pieces.next().unwrap())),
                Reception::Ended => break,
            }
        }
        assert_eq!(received, texts);
        assert_eq!(pieces.next(), None);
    }
}

#[test]
fn failed_read() {
    let mut stream = Delimited::new();
    stream.feed(b"one\0two");
    assert_eq!(stream.recv(), frame(b"one"));
    assert_eq!(stream.recv(), Ok(Reception::More));
    assert_eq!(stream.fail(), ReceiveError::Frame);
    assert_eq!(stream.recv(), Ok(Reception::Ended));
    assert_eq!(stream.recv(), Ok(Reception::More));
    stream.feed(b"!\0");
    assert_eq!(stream.recv(), frame(b"two!"));
}

#[test]
fn empty_stream() {
    let mut stream = Delimited::new();
    assert!(stream.feed(b""));
    assert_eq!(stream.recv(), Ok(Reception::Ended));
}

#[test]
fn empty_frames() {
    let mut stream = Delimited::new();
    stream.feed(b"\0\0");
    assert_eq!(stream.recv(), frame(b""));
    assert_eq!(stream.recv(), frame(b""));
    assert_eq!(stream.recv(), Ok(Reception::More));
}

#[test]
fn what_was_not_handed_out_is_given_back() {
    let mut stream = Delimited::new();
    stream.feed(b"first\0raw data");
    assert_eq!(stream.recv(), frame(b"first"));
    assert_eq!(stream.into_parts(), b"raw data".to_vec());
}
