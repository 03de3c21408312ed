use alloy_rlp::Error as RlpError;
use block_export::codec::{BlockFileCodec, FileClientError};
use tokio_util::bytes::BytesMut;

// A stand-in for the block decoder: a block is one length byte and then that many bytes.
fn decode_front(src: &[u8]) -> Result<(Vec<u8>, usize), RlpError> {
    let len = *src.first().ok_or(RlpError::InputTooShort)? as usize;
    if src.len() < 1 + len {
        return Err(RlpError::InputTooShort);
    }
    Ok((src[1..1 + len].to_vec(), src.len() - 1 - len))
}

fn serialized(block: &[u8]) -> Vec<u8> {
    let mut bytes = vec![block.len() as u8];
    bytes.extend_from_slice(block);
    bytes
}

#[test]
fn empty_buffer_is_the_end_of_the_stream() {
    let mut codec = BlockFileCodec;
    let mut src = BytesMut::new();
    let front = decode_front(&src);
    let decoded = codec.decode(&mut src, front).unwrap();
    assert_eq!(decoded, None);
    assert!(src.is_empty());
}

#[test]
fn empty_buffer_ends_the_stream_whatever_the_decoder_said() {
    let mut codec = BlockFileCodec;
    let mut src = BytesMut::new();
    let decoded = codec.decode(&mut src, Ok((7u8, 0))).unwrap();
    assert_eq!(decoded, None);
    assert!(src.is_empty());
}

#[test]
fn decode_takes_one_block_and_its_bytes_only() {
    let mut codec = BlockFileCodec;
    let mut src = BytesMut::from(&[2u8, 10, 11, 3, 20, 21, 22][..]);
    let front = decode_front(&src);
    let decoded = codec.decode(&mut src, front).unwrap();
    assert_eq!(decoded, Some(vec![10, 11]));
    assert_eq!(&src[..], &[3u8, 20, 21, 22][..]);
    let front = decode_front(&src);
    let decoded = codec.decode(&mut src, front).unwrap();
    assert_eq!(decoded, Some(vec![20, 21, 22]));
    assert!(src.is_empty());
    let front = decode_front(&src);
    assert_eq!(codec.decode(&mut src, front).unwrap(), None);
}

#[test]
fn decode_error_is_handed_on_and_nothing_is_skipped() {
    let mut codec = BlockFileCodec;
    let mut src = BytesMut::from(&[5u8, 1, 2][..]);
    let front = decode_front(&src);
    match codec.decode(&mut src, front) {
        Err(FileClientError::Rlp(error)) => assert_eq!(error, RlpError::InputTooShort),
        other => panic!("unexpected: {:?}", other),
    }
    assert_eq!(&src[..], &[5u8, 1, 2][..]);
    let front = decode_front(&src);
    assert!(matches!(
        codec.decode(&mut src, front),
        Err(FileClientError::Rlp(RlpError::InputTooShort))
    ));
    assert_eq!(&src[..], &[5u8, 1, 2][..]);
}

#[test]
fn encode_appends_the_bytes_and_nothing_else() {
    let mut codec = BlockFileCodec;
    let mut dst = BytesMut::new();
    assert!(codec.encode(&[1, 2, 3], &mut dst).is_ok());
    assert_eq!(&dst[..], &[1u8, 2, 3][..]);
    assert!(codec.encode(&[], &mut dst).is_ok());
    assert_eq!(&dst[..], &[1u8, 2, 3][..]);
    assert!(codec.encode(&[4, 5], &mut dst).is_ok());
    assert_eq!(&dst[..], &[1u8, 2, 3, 4, 5][..]);
}

#[test]
fn encoded_blocks_decode_to_the_same_blocks_in_order() {
    let blocks: Vec<Vec<u8>> = vec![vec![1, 2, 3], vec![], vec![9; 200], vec![4]];
    let mut codec = BlockFileCodec;
    let mut stream = BytesMut::new();
    for block in &blocks {
        codec.encode(&serialized(block), &mut stream).unwrap();
    }
    assert_eq!(stream.len(), 3 + 0 + 200 + 1 + 4);
    let mut decoded = Vec::new();
    loop {
        let front = decode_front(&stream);
        match codec.decode(&mut stream, front).unwrap() {
            Some(block) => decoded.push(block),
            None => break,
        }
    }
    assert_eq!(decoded, blocks);
    assert!(stream.is_empty());
}

#[test]
fn no_blocks_encode_to_an_empty_stream() {
    let mut codec = BlockFileCodec;
    let mut stream = BytesMut::new();
    let front = decode_front(&stream);
    assert_eq!(codec.decode(&mut stream, front).unwrap(), None);
    assert_eq!(stream.len(), 0);
}

#[test]
fn errors_convert_into_the_file_error() {
    let io = std::io::Error::new(std::io::ErrorKind::NotFound, "no such file");
    match FileClientError::from(io) {
        FileClientError::Io(error) => assert_eq!(error.kind(), std::io::ErrorKind::NotFound),
        other => panic!("unexpected: {:?}", other),
    }
    match FileClientError::from(RlpError::LeadingZero) {
        FileClientError::Rlp(error) => assert_eq!(error, RlpError::LeadingZero),
        other => panic!("unexpected: {:?}", other),
    }
}
