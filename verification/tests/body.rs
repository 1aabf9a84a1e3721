use path_proxy::body::{read_bounded, BodyError, BodyRelay, Chunk, MAX_SIZE};

#[test]
fn ceiling_is_256_kib() {
    assert_eq!(MAX_SIZE, 262_144);
    assert_eq!(MAX_SIZE, 256 * 1024);
}

#[test]
fn body_at_the_ceiling_is_relayed_byte_for_byte() {
    let body: Vec<u8> = (0..262_144u32).map(|i| (i % 251) as u8).collect();
    let out = read_bounded(&vec![Chunk::Data(body.clone())], MAX_SIZE).unwrap();
    assert_eq!(out.len(), 262_144);
    assert_eq!(out, body);
}

#[test]
fn body_one_byte_over_the_ceiling_overflows() {
    let body = vec![7u8; 262_145];
    assert_eq!(read_bounded(&vec![Chunk::Data(body)], MAX_SIZE), Err(BodyError::Overflow));
}

#[test]
fn chunks_are_joined_in_order() {
    let chunks = vec![
        Chunk::Data(b"ab".to_vec()),
        Chunk::Data(Vec::new()),
        Chunk::Data(b"cde".to_vec()),
    ];
    assert_eq!(read_bounded(&chunks, 5), Ok(b"abcde".to_vec()));
}

#[test]
fn running_total_decides_the_overflow() {
    let chunks = vec![Chunk::Data(vec![0; 3]), Chunk::Data(vec![0; 3])];
    assert_eq!(read_bounded(&chunks, 5), Err(BodyError::Overflow));
    assert_eq!(read_bounded(&chunks, 6).map(|b| b.len()), Ok(6));
}

#[test]
fn empty_stream_is_an_empty_body() {
    assert_eq!(read_bounded(&Vec::new(), MAX_SIZE), Ok(Vec::new()));
    assert_eq!(read_bounded(&Vec::new(), 0), Ok(Vec::new()));
}

#[test]
fn failed_read_is_a_transport_error() {
    let chunks = vec![Chunk::Data(b"ab".to_vec()), Chunk::Failed("connection reset".to_string())];
    assert_eq!(
        read_bounded(&chunks, MAX_SIZE),
        Err(BodyError::Transport("connection reset".to_string()))
    );
}

#[test]
fn first_error_wins() {
    let chunks = vec![Chunk::Data(vec![0; 9]), Chunk::Failed("late".to_string())];
    assert_eq!(read_bounded(&chunks, 8), Err(BodyError::Overflow));
    let chunks = vec![
        Chunk::Failed("first".to_string()),
        Chunk::Data(vec![0; 9]),
        Chunk::Failed("second".to_string()),
    ];
    assert_eq!(read_bounded(&chunks, 8), Err(BodyError::Transport("first".to_string())));
}

#[test]
fn relay_accepts_until_the_limit() {
    let mut relay = BodyRelay::new(4);
    assert_eq!(relay.push(&Chunk::Data(b"ab".to_vec())), Ok(()));
    assert_eq!(relay.push(&Chunk::Data(b"cd".to_vec())), Ok(()));
    assert_eq!(relay.push(&Chunk::Data(b"e".to_vec())), Err(BodyError::Overflow));
    assert_eq!(relay.push(&Chunk::Data(Vec::new())), Ok(()));
    assert_eq!(relay.finish(), b"abcd".to_vec());
}

#[test]
fn relay_keeps_its_buffer_on_a_failed_read() {
    let mut relay = BodyRelay::new(4);
    assert_eq!(relay.push(&Chunk::Data(b"ab".to_vec())), Ok(()));
    assert_eq!(
        relay.push(&Chunk::Failed("timed out".to_string())),
        Err(BodyError::Transport("timed out".to_string()))
    );
    assert_eq!(relay.finish(), b"ab".to_vec());
}

#[test]
fn body_error_messages() {
    assert_eq!(BodyError::Overflow.message(), "Overflowed");
    assert_eq!(
        BodyError::Transport("connection reset".to_string()).message(),
        "failed to get bytes: connection reset"
    );
    assert_eq!(BodyError::Transport(String::new()).message(), "failed to get bytes: ");
}

#[test]
fn failed_read_reaches_the_client_with_its_cause() {
    let chunks = vec![Chunk::Data(b"ab".to_vec()), Chunk::Failed("payload reached EOF".to_string())];
    let error = read_bounded(&chunks, MAX_SIZE).unwrap_err();
    assert_eq!(error.message(), "failed to get bytes: payload reached EOF");
}
