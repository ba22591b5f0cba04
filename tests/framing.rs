use ta_manager::{encode_request, frame_message, CARequest, FrameReader, Parameters};

#[test]
fn frame_prefixes_length_least_significant_first() {
    let framed = frame_message(&[1, 2, 3]).unwrap();
    assert_eq!(framed, vec![3, 0, 0, 0, 1, 2, 3]);
    let big = vec![0u8; 0x0102];
    let framed = frame_message(&big).unwrap();
    assert_eq!(&framed[..4], &[0x02, 0x01, 0, 0]);
    assert_eq!(framed.len(), 4 + 0x0102);
}

#[test]
fn empty_payload_frame() {
    let framed = frame_message(&[]).unwrap();
    assert_eq!(framed, vec![0, 0, 0, 0]);
    let mut reader = FrameReader::new();
    reader.push(&framed);
    assert_eq!(reader.next_frame(), Some(vec![]));
    assert_eq!(reader.next_frame(), None);
}

#[test]
fn two_messages_recovered_under_any_chunking() {
    let first = encode_request(&CARequest::CloseSession { session_id: 3 });
    let second = encode_request(&CARequest::OpenSession { params: Parameters::default() });
    let mut stream = frame_message(&first).unwrap();
    stream.extend(frame_message(&second).unwrap());
    for chunk in 1..=stream.len() {
        let mut reader = FrameReader::new();
        let mut got = Vec::new();
        for piece in stream.chunks(chunk) {
            reader.push(piece);
            while let Some(payload) = reader.next_frame() {
                got.push(payload);
            }
        }
        assert_eq!(got, vec![first.clone(), second.clone()]);
    }
}

#[test]
fn partial_frame_is_held_back() {
    let mut reader = FrameReader::new();
    reader.push(&[5, 0]);
    assert_eq!(reader.next_frame(), None);
    reader.push(&[0, 0, 1, 2]);
    assert_eq!(reader.next_frame(), None);
    reader.push(&[3, 4, 5, 6]);
    assert_eq!(reader.next_frame(), Some(vec![1, 2, 3, 4, 5]));
    reader.push(&[1, 0, 0, 0]);
    assert_eq!(reader.next_frame(), None);
}
