use identity_wallet::connection::{Connection, MAX_PENDING_BYTES};
use identity_wallet::framing::FrameReassembler;
use identity_wallet::protocol::ErrorKind;

fn term() -> Vec<u8> {
    b"END".to_vec()
}

#[test]
fn single_command_one_chunk() {
    let mut r = FrameReassembler::new(term());
    let frames = r.feed(b"helloEND");
    assert_eq!(frames, vec![b"hello".to_vec()]);
    assert_eq!(r.pending_len(), 0);
}

#[test]
fn chunk_without_terminator_only_buffers() {
    let mut r = FrameReassembler::new(term());
    let frames = r.feed(b"partial input");
    assert!(frames.is_empty());
    assert_eq!(r.pending_len(), 13);
}

#[test]
fn remainder_carries_to_next_feed() {
    let mut r = FrameReassembler::new(term());
    let frames = r.feed(b"oneENDtwoENDthr");
    assert_eq!(frames, vec![b"one".to_vec(), b"two".to_vec()]);
    assert_eq!(r.pending_len(), 3);
    let frames = r.feed(b"eeEND");
    assert_eq!(frames, vec![b"three".to_vec()]);
    assert_eq!(r.pending_len(), 0);
}

#[test]
fn empty_segment_between_terminators_is_empty_command() {
    let mut r = FrameReassembler::new(term());
    let frames = r.feed(b"ENDENDxEND");
    assert_eq!(frames, vec![b"".to_vec(), b"".to_vec(), b"x".to_vec()]);
}

#[test]
fn chunking_is_transparent_at_every_split() {
    let input = b"the quick brown foxEND";
    for i in 0..=input.len() {
        let mut r = FrameReassembler::new(term());
        let mut frames = r.feed(&input[..i]);
        frames.extend(r.feed(&input[i..]));
        assert_eq!(frames, vec![b"the quick brown fox".to_vec()], "split at {i}");
        assert_eq!(r.pending_len(), 0, "split at {i}");
    }
}

#[test]
fn terminator_split_across_three_chunks() {
    let mut r = FrameReassembler::new(term());
    assert!(r.feed(b"abcE").is_empty());
    assert!(r.feed(b"N").is_empty());
    let frames = r.feed(b"Dxyz");
    assert_eq!(frames, vec![b"abc".to_vec()]);
    assert_eq!(r.pending_len(), 3);
}

#[test]
fn connection_reports_overflow_without_terminator() {
    let mut c = Connection::new(term());
    let big = vec![b'a'; MAX_PENDING_BYTES + 1];
    match c.on_data(&big) {
        Err(k) => assert_eq!(k, ErrorKind::FramingOverflow),
        Ok(_) => panic!("expected an overflow"),
    }
}

#[test]
fn connection_emits_frames_under_cap() {
    let mut c = Connection::new(term());
    let frames = c.on_data(b"cmdENDrest").expect("under the cap");
    assert_eq!(frames, vec![b"cmd".to_vec()]);
}
