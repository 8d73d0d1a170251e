use ssh_agent_bridge::codec::SshAgentCodec;
use ssh_agent_bridge::message::SshAgentMessage;
use tokio_util::bytes::BytesMut;

fn framed(payload: &[u8]) -> Vec<u8> {
    let mut v = (payload.len() as u32).to_be_bytes().to_vec();
    v.extend_from_slice(payload);
    v
}

#[test]
fn short_buffers_yield_nothing_and_stay() {
    for n in 0..4usize {
        let bytes: Vec<u8> = (0..n as u8).collect();
        let mut buf = BytesMut::from(&bytes[..]);
        assert!(SshAgentCodec.decode(&mut buf).is_none());
        assert_eq!(&buf[..], &bytes[..]);
    }
}

#[test]
fn incomplete_payload_yields_nothing_and_stays() {
    let bytes = vec![0u8, 0, 0, 5, 1, 2, 3];
    let mut buf = BytesMut::from(&bytes[..]);
    assert!(SshAgentCodec.decode(&mut buf).is_none());
    assert_eq!(&buf[..], &bytes[..]);
}

#[test]
fn round_trip_small_payload() {
    let mut buf = BytesMut::new();
    SshAgentCodec.encode(SshAgentMessage::new(3, vec![7, 8, 9]), &mut buf);
    assert_eq!(&buf[..], &[0u8, 0, 0, 3, 7, 8, 9][..]);
    let m = SshAgentCodec.decode(&mut buf).unwrap();
    assert_eq!(m.length, 3);
    assert_eq!(m.payload, vec![7, 8, 9]);
    assert!(buf.is_empty());
}

#[test]
fn round_trip_empty_payload() {
    let mut buf = BytesMut::new();
    SshAgentCodec.encode(SshAgentMessage::new(0, vec![]), &mut buf);
    assert_eq!(&buf[..], &[0u8, 0, 0, 0][..]);
    let m = SshAgentCodec.decode(&mut buf).unwrap();
    assert_eq!(m.length, 0);
    assert!(m.payload.is_empty());
    assert!(buf.is_empty());
}

#[test]
fn encode_appends_after_existing_bytes() {
    let mut buf = BytesMut::from(&[1u8, 2][..]);
    SshAgentCodec.encode(SshAgentMessage::new(1, vec![42]), &mut buf);
    assert_eq!(&buf[..], &[1u8, 2, 0, 0, 0, 1, 42][..]);
}

#[test]
fn header_is_big_endian() {
    let payload: Vec<u8> = (0..258u32).map(|i| i as u8).collect();
    let mut buf = BytesMut::new();
    SshAgentCodec.encode(SshAgentMessage::new(258, payload.clone()), &mut buf);
    assert_eq!(&buf[..4], &[0u8, 0, 1, 2][..]);
    assert_eq!(&buf[4..], &payload[..]);
}

#[test]
fn complete_then_partial_leaves_partial() {
    let mut bytes = framed(&[10, 20, 30]);
    let partial = vec![0u8, 0, 0, 9, 1, 2];
    bytes.extend_from_slice(&partial);
    let mut buf = BytesMut::from(&bytes[..]);
    let m = SshAgentCodec.decode(&mut buf).unwrap();
    assert_eq!(m.payload, vec![10, 20, 30]);
    assert_eq!(&buf[..], &partial[..]);
    assert!(SshAgentCodec.decode(&mut buf).is_none());
    assert_eq!(&buf[..], &partial[..]);
}

#[test]
fn messages_come_out_in_order() {
    let mut bytes = framed(&[1]);
    bytes.extend(framed(&[]));
    bytes.extend(framed(&[2, 3]));
    let mut buf = BytesMut::from(&bytes[..]);
    assert_eq!(SshAgentCodec.decode(&mut buf).unwrap().payload, vec![1]);
    assert_eq!(SshAgentCodec.decode(&mut buf).unwrap().payload, Vec::<u8>::new());
    assert_eq!(SshAgentCodec.decode(&mut buf).unwrap().payload, vec![2, 3]);
    assert!(SshAgentCodec.decode(&mut buf).is_none());
    assert!(buf.is_empty());
}

#[test]
fn round_trip_one_mebibyte_payload() {
    let n: usize = 1 << 20;
    let payload: Vec<u8> = (0..n).map(|i| (i % 251) as u8).collect();
    let mut buf = BytesMut::new();
    SshAgentCodec.encode(SshAgentMessage::new(n as u32, payload.clone()), &mut buf);
    assert_eq!(buf.len(), n + 4);
    assert_eq!(&buf[..4], &[0u8, 0x10, 0, 0][..]);
    let m = SshAgentCodec.decode(&mut buf).unwrap();
    assert_eq!(m.length, n as u32);
    assert_eq!(m.payload, payload);
    assert!(buf.is_empty());
}
