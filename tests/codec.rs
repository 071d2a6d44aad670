use ar_pe_ce::codec::{FrameError, Json, MAX_FRAME_LEN};
use bytes::BytesMut;

fn frame(payload: &[u8]) -> BytesMut {
    let mut codec: Json<()> = Json::default();
    let mut dst = BytesMut::new();
    codec.encode(payload, &mut dst).unwrap();
    dst
}

#[test]
fn encode_writes_little_endian_length_then_payload() {
    let dst = frame(b"ab");
    assert_eq!(&dst[..], &[2u8, 0, 0, 0, 97, 98][..]);
}

#[test]
fn encode_length_uses_all_four_bytes() {
    let payload = vec![7u8; 0x0102_03];
    let dst = frame(&payload);
    assert_eq!(&dst[..4], &[0x03u8, 0x02, 0x01, 0x00][..]);
    assert_eq!(dst.len(), 4 + payload.len());
}

#[test]
fn encode_appends_after_existing_bytes() {
    let mut codec: Json<()> = Json::default();
    let mut dst = BytesMut::new();
    dst.extend_from_slice(b"xy");
    codec.encode(b"", &mut dst).unwrap();
    assert_eq!(&dst[..], &[120u8, 121, 0, 0, 0, 0][..]);
}

#[test]
fn encode_refuses_payload_over_ceiling() {
    let mut codec: Json<()> = Json::with_max_len(3);
    let mut dst = BytesMut::new();
    assert_eq!(codec.encode(b"abcd", &mut dst), Err(FrameError::TooLarge(4)));
    assert!(dst.is_empty());
    assert_eq!(codec.encode(b"abc", &mut dst), Ok(()));
}

#[test]
fn default_ceiling_is_length_field_range() {
    let codec: Json<()> = Json::default();
    assert_eq!(codec.max_len, MAX_FRAME_LEN);
    assert_eq!(MAX_FRAME_LEN, u32::MAX);
}

#[test]
fn decode_round_trips_a_frame() {
    let mut src = frame(b"{\"Ok\":1}");
    let mut codec: Json<()> = Json::default();
    let got = codec.decode(&mut src).unwrap();
    assert_eq!(got, Some(b"{\"Ok\":1}".to_vec()));
    assert!(src.is_empty());
}

#[test]
fn decode_empty_payload() {
    let mut src = frame(b"");
    let mut codec: Json<()> = Json::default();
    assert_eq!(codec.decode(&mut src).unwrap(), Some(Vec::new()));
    assert!(src.is_empty());
}

#[test]
fn decode_waits_for_whole_header() {
    let mut src = BytesMut::new();
    src.extend_from_slice(&[5u8, 0, 0]);
    let mut codec: Json<()> = Json::default();
    assert_eq!(codec.decode(&mut src).unwrap(), None);
    assert_eq!(&src[..], &[5u8, 0, 0][..]);
}

#[test]
fn decode_waits_for_whole_body() {
    let mut src = BytesMut::new();
    src.extend_from_slice(&[5u8, 0, 0, 0, 1, 2]);
    let mut codec: Json<()> = Json::default();
    assert_eq!(codec.decode(&mut src).unwrap(), None);
    assert_eq!(src.len(), 6);
}

#[test]
fn decode_refuses_oversized_header() {
    let mut src = BytesMut::new();
    src.extend_from_slice(&[0u8, 1, 0, 0, 1]);
    let mut codec: Json<()> = Json::with_max_len(255);
    assert_eq!(codec.decode(&mut src), Err(FrameError::TooLarge(256)));
    assert_eq!(src.len(), 5);
}

#[test]
fn decode_leaves_following_bytes() {
    let mut src = frame(b"one");
    src.extend_from_slice(&frame(b"two"));
    let mut codec: Json<()> = Json::default();
    assert_eq!(codec.decode(&mut src).unwrap(), Some(b"one".to_vec()));
    assert_eq!(codec.decode(&mut src).unwrap(), Some(b"two".to_vec()));
    assert_eq!(codec.decode(&mut src).unwrap(), None);
}

fn read_in_chunks(bytes: &[u8], chunk: usize) -> Vec<Vec<u8>> {
    let mut codec: Json<()> = Json::default();
    let mut buf = BytesMut::new();
    let mut out = Vec::new();
    for part in bytes.chunks(chunk) {
        buf.extend_from_slice(part);
        while let Some(p) = codec.decode(&mut buf).unwrap() {
            out.push(p);
        }
    }
    assert!(buf.is_empty());
    out
}

#[test]
fn chunking_does_not_change_frames() {
    let mut all = frame(b"first");
    all.extend_from_slice(&frame(b""));
    all.extend_from_slice(&frame(b"third one"));
    let whole = read_in_chunks(&all, all.len());
    assert_eq!(whole, vec![b"first".to_vec(), Vec::new(), b"third one".to_vec()]);
    for chunk in 1..all.len() {
        assert_eq!(read_in_chunks(&all, chunk), whole);
    }
}

fn decode_all_in_chunks(bytes: &[u8], chunk: usize, max_len: u32) -> (Vec<Vec<u8>>, Option<FrameError>, Vec<u8>) {
    let mut codec: Json<()> = Json::with_max_len(max_len);
    let mut buf = BytesMut::new();
    let mut out = Vec::new();
    for part in bytes.chunks(chunk) {
        buf.extend_from_slice(part);
        let (frames, failed) = codec.decode_all(&mut buf);
        out.extend(frames);
        if failed.is_some() {
            return (out, failed, buf.to_vec());
        }
    }
    (out, None, buf.to_vec())
}

#[test]
fn decode_all_same_in_any_chunking() {
    let mut all = frame(b"alpha");
    all.extend_from_slice(&frame(b"b"));
    all.extend_from_slice(&[9u8, 0, 0, 0, 1]);
    let whole = decode_all_in_chunks(&all, all.len(), u32::MAX);
    assert_eq!(whole.0, vec![b"alpha".to_vec(), b"b".to_vec()]);
    assert_eq!(whole.1, None);
    assert_eq!(whole.2, vec![9u8, 0, 0, 0, 1]);
    for chunk in 1..all.len() {
        assert_eq!(decode_all_in_chunks(&all, chunk, u32::MAX), whole);
    }
}

#[test]
fn decode_all_stops_at_oversized_header() {
    let mut all = frame(b"ok");
    all.extend_from_slice(&frame(b"too long"));
    all.extend_from_slice(&frame(b"x"));
    let got = decode_all_in_chunks(&all, all.len(), 4);
    assert_eq!(got.0, vec![b"ok".to_vec()]);
    assert_eq!(got.1, Some(FrameError::TooLarge(8)));
    assert_eq!(got.2.len(), 12 + 5);
    for chunk in 1..all.len() {
        assert_eq!(decode_all_in_chunks(&all, chunk, 4).0, got.0);
    }
}

#[test]
fn decode_all_on_empty_buffer() {
    let mut codec: Json<()> = Json::default();
    let mut buf = BytesMut::new();
    let (frames, failed) = codec.decode_all(&mut buf);
    assert!(frames.is_empty());
    assert_eq!(failed, None);
}
