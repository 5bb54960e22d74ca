use ball_game::encoding::{Error, NetworkMessage, MAX_PAYLOAD};
use bytes::BytesMut;

fn codec() -> NetworkMessage<Vec<u8>> {
    NetworkMessage::new()
}

#[test]
fn encode_writes_big_endian_length_then_payload() {
    let mut buf = BytesMut::new();
    codec().encode(&[7, 8, 9], &mut buf).unwrap();
    assert_eq!(&buf[..], &[0, 3, 7, 8, 9]);
}

#[test]
fn encode_length_uses_both_bytes() {
    let payload = vec![5u8; 300];
    let mut buf = BytesMut::new();
    codec().encode(&payload, &mut buf).unwrap();
    assert_eq!(buf.len(), 302);
    assert_eq!(buf[0], 1);
    assert_eq!(buf[1], 44);
    assert_eq!(&buf[2..], &payload[..]);
}

#[test]
fn encode_appends_to_what_is_buffered() {
    let mut buf = BytesMut::new();
    buf.extend_from_slice(&[42]);
    codec().encode(&[1], &mut buf).unwrap();
    codec().encode(&[2, 3], &mut buf).unwrap();
    assert_eq!(&buf[..], &[42, 0, 1, 1, 0, 2, 2, 3]);
}

#[test]
fn round_trip_returns_the_payload() {
    let payload: Vec<u8> = (0..=255u8).collect();
    let mut buf = BytesMut::new();
    codec().encode(&payload, &mut buf).unwrap();
    let item = codec().decode(&mut buf).unwrap();
    assert_eq!(item, Some(payload));
    assert_eq!(buf.len(), 0);
}

#[test]
fn round_trip_of_the_largest_payload() {
    let payload = vec![0xabu8; MAX_PAYLOAD];
    let mut buf = BytesMut::new();
    codec().encode(&payload, &mut buf).unwrap();
    assert_eq!(buf.len(), MAX_PAYLOAD + 2);
    assert_eq!(&buf[..2], &[255, 255]);
    let item = codec().decode(&mut buf).unwrap();
    assert_eq!(item, Some(payload));
    assert_eq!(buf.len(), 0);
}

#[test]
fn oversized_payload_is_refused_and_buffer_untouched() {
    let payload = vec![1u8; MAX_PAYLOAD + 1];
    let mut buf = BytesMut::new();
    buf.extend_from_slice(&[9, 9]);
    let result = codec().encode(&payload, &mut buf);
    assert!(matches!(result, Err(Error::LargePayload)));
    assert_eq!(&buf[..], &[9, 9]);
}

#[test]
fn decode_byte_by_byte_yields_only_at_the_last_byte() {
    let payload = vec![10u8, 20, 30, 40, 50];
    let mut framed = BytesMut::new();
    codec().encode(&payload, &mut framed).unwrap();
    let bytes = framed.to_vec();
    let mut src = BytesMut::new();
    let mut c = codec();
    for (i, byte) in bytes.iter().enumerate() {
        src.extend_from_slice(&[*byte]);
        let item = c.decode(&mut src).unwrap();
        if i + 1 < bytes.len() {
            assert_eq!(item, None);
            assert_eq!(&src[..], &bytes[..i + 1]);
        } else {
            assert_eq!(item, Some(payload.clone()));
            assert_eq!(src.len(), 0);
        }
    }
}

#[test]
fn decode_needs_three_bytes() {
    let mut c = codec();
    let mut src = BytesMut::new();
    assert_eq!(c.decode(&mut src).unwrap(), None);
    src.extend_from_slice(&[0, 1]);
    assert_eq!(c.decode(&mut src).unwrap(), None);
    assert_eq!(&src[..], &[0, 1]);
}

#[test]
fn empty_frame_waits_for_a_third_byte() {
    let mut c = codec();
    let mut src = BytesMut::new();
    c.encode(&[], &mut src).unwrap();
    assert_eq!(&src[..], &[0, 0]);
    assert_eq!(c.decode(&mut src).unwrap(), None);
    assert_eq!(&src[..], &[0, 0]);
    src.extend_from_slice(&[0]);
    assert_eq!(c.decode(&mut src).unwrap(), Some(vec![]));
    assert_eq!(&src[..], &[0]);
}

#[test]
fn decode_leaves_what_follows_the_frame() {
    let mut c = codec();
    let mut src = BytesMut::new();
    c.encode(&[1, 2], &mut src).unwrap();
    c.encode(&[3], &mut src).unwrap();
    src.extend_from_slice(&[0, 9, 8]);
    assert_eq!(c.decode(&mut src).unwrap(), Some(vec![1, 2]));
    assert_eq!(&src[..], &[0, 1, 3, 0, 9, 8]);
    assert_eq!(c.decode(&mut src).unwrap(), Some(vec![3]));
    assert_eq!(&src[..], &[0, 9, 8]);
    assert_eq!(c.decode(&mut src).unwrap(), None);
    assert_eq!(&src[..], &[0, 9, 8]);
}

#[test]
fn decode_reads_the_length_high_byte_first() {
    let mut c = codec();
    let mut src = BytesMut::new();
    src.extend_from_slice(&[1, 0]);
    src.extend_from_slice(&vec![7u8; 255]);
    assert_eq!(c.decode(&mut src).unwrap(), None);
    assert_eq!(src.len(), 257);
    src.extend_from_slice(&[7, 5]);
    assert_eq!(c.decode(&mut src).unwrap(), Some(vec![7u8; 256]));
    assert_eq!(&src[..], &[5]);
}

#[test]
fn errors_in_words() {
    assert_eq!(Error::LargePayload.to_string(), "payload too large");
    let io = std::io::Error::new(std::io::ErrorKind::Other, "x");
    assert_eq!(Error::IO(io).to_string(), "IO error");
    let bad = bincode::deserialize::<u64>(&[1u8]).unwrap_err();
    assert_eq!(Error::Serialization(bad).to_string(), "could not de/serialze");
}

#[test]
fn serialised_message_is_framed() {
    let mut buf = BytesMut::new();
    let mut c: NetworkMessage<u32> = NetworkMessage::new();
    c.encode_serialized(bincode::serialize(&7u32), &mut buf).unwrap();
    assert_eq!(&buf[..], &[0, 4, 7, 0, 0, 0]);
    let payload = c.decode(&mut buf).unwrap().unwrap();
    let item = c.decoded(bincode::deserialize(&payload)).unwrap();
    assert_eq!(item, Some(7u32));
}

#[test]
fn serialiser_errors_are_handed_on() {
    let mut buf = BytesMut::new();
    buf.extend_from_slice(&[1]);
    let mut c: NetworkMessage<u64> = NetworkMessage::new();
    let failed = bincode::deserialize::<u64>(&[1u8]).map(|_| Vec::new());
    let done = c.encode_serialized(failed, &mut buf);
    assert!(matches!(done, Err(Error::Serialization(_))));
    assert_eq!(&buf[..], &[1]);
    let item = c.decoded(bincode::deserialize::<u64>(&[1u8, 2]));
    assert!(matches!(item, Err(Error::Serialization(_))));
}

#[test]
fn outside_errors_convert() {
    let io = std::io::Error::new(std::io::ErrorKind::UnexpectedEof, "eof");
    assert!(matches!(Error::from(io), Error::IO(_)));
    let bad = bincode::deserialize::<u64>(&[1u8]).unwrap_err();
    assert!(matches!(Error::from(bad), Error::Serialization(_)));
}

#[test]
fn room_is_measured_against_one_allocation() {
    let mut buf = BytesMut::new();
    buf.extend_from_slice(&[1, 2, 3]);
    let limit = isize::MAX as usize;
    assert!(ball_game::encoding::has_room(&buf, 0));
    assert!(ball_game::encoding::has_room(&buf, limit - 5));
    assert!(!ball_game::encoding::has_room(&buf, limit - 4));
    assert!(!ball_game::encoding::has_room(&buf, usize::MAX));
}
