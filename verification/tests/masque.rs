use toppy::masque::{
    decode_varint, encode_varint, varint_len, DecodeError, EncodeError, HttpDatagram,
    CONNECT_UDP_CONTEXT_ID,
};

#[test]
fn varint_roundtrip_boundaries() {
    let values = [
        0u64,
        1,
        63,
        64,
        16_383,
        16_384,
        1_073_741_823,
        1_073_741_824,
        4_611_686_018_427_387_903,
    ];

    for v in values {
        let mut buf = Vec::new();
        encode_varint(v, &mut buf).unwrap();
        let (decoded, n) = decode_varint(&buf).unwrap();
        assert_eq!(decoded, v);
        assert_eq!(n, buf.len());
    }
}

#[test]
fn http_datagram_encode_decode_roundtrip() {
    let dg = HttpDatagram::new(CONNECT_UDP_CONTEXT_ID, vec![1, 2, 3, 4]);
    let bytes = dg.encode().unwrap();
    let decoded = HttpDatagram::decode(&bytes).unwrap();
    assert_eq!(decoded, dg);
}

#[test]
fn decode_varint_truncated() {
    assert_eq!(decode_varint(&[]), Err(DecodeError::Truncated));
    // 2-byte encoding but only 1 byte provided.
    assert_eq!(decode_varint(&[0b01 << 6]), Err(DecodeError::Truncated));
}

#[test]
fn connect_udp_http_datagram_roundtrip() {
    let dg = HttpDatagram::new(CONNECT_UDP_CONTEXT_ID, vec![9, 8, 7]);
    let bytes = dg.encode().unwrap();
    let decoded = HttpDatagram::decode(&bytes).unwrap();
    assert_eq!(decoded, dg);
}

#[test]
fn varint_exact_bytes_per_length_class() {
    let cases: [(u64, Vec<u8>); 8] = [
        (0, vec![0x00]),
        (63, vec![0x3f]),
        (64, vec![0x40, 0x40]),
        (16_383, vec![0x7f, 0xff]),
        (16_384, vec![0x80, 0x00, 0x40, 0x00]),
        (1_073_741_823, vec![0xbf, 0xff, 0xff, 0xff]),
        (1_073_741_824, vec![0xc0, 0x00, 0x00, 0x00, 0x40, 0x00, 0x00, 0x00]),
        (
            4_611_686_018_427_387_903,
            vec![0xff, 0xff, 0xff, 0xff, 0xff, 0xff, 0xff, 0xff],
        ),
    ];
    for (value, bytes) in cases {
        let mut buf = Vec::new();
        assert_eq!(encode_varint(value, &mut buf), Ok(()));
        assert_eq!(buf, bytes);
        assert_eq!(varint_len(value), bytes.len());
        assert_eq!(decode_varint(&bytes), Ok((value, bytes.len())));
    }
}

#[test]
fn varint_known_vectors() {
    // 37, 15293, 494878333 and 151288809941952652 in their shortest forms.
    assert_eq!(decode_varint(&[0x25]), Ok((37, 1)));
    assert_eq!(decode_varint(&[0x7b, 0xbd]), Ok((15_293, 2)));
    assert_eq!(decode_varint(&[0x9d, 0x7f, 0x3e, 0x7d]), Ok((494_878_333, 4)));
    assert_eq!(
        decode_varint(&[0xc2, 0x19, 0x7c, 0x5e, 0xff, 0x14, 0xe8, 0x8c]),
        Ok((151_288_809_941_952_652, 8))
    );
    // A longer form than needed still decodes to the same value.
    assert_eq!(decode_varint(&[0x40, 0x25]), Ok((37, 2)));
}

#[test]
fn encode_varint_rejects_values_beyond_62_bits() {
    for value in [4_611_686_018_427_387_904u64, u64::MAX] {
        let mut buf = vec![0xaa];
        assert_eq!(encode_varint(value, &mut buf), Err(EncodeError::OutOfRange));
        assert_eq!(buf, vec![0xaa]);
        assert_eq!(varint_len(value), 0);
    }
}

#[test]
fn encode_varint_appends_to_what_is_there() {
    let mut buf = vec![1, 2];
    encode_varint(300, &mut buf).unwrap();
    assert_eq!(buf, vec![1, 2, 0x41, 0x2c]);
}

#[test]
fn decode_varint_truncated_in_every_length_class() {
    assert_eq!(decode_varint(&[0x80, 0, 0]), Err(DecodeError::Truncated));
    assert_eq!(decode_varint(&[0xc0, 0, 0, 0, 0, 0, 0]), Err(DecodeError::Truncated));
    // Bytes after the integer are not its concern.
    assert_eq!(decode_varint(&[0x05, 0xff, 0xff]), Ok((5, 1)));
}

#[test]
fn datagram_wire_form_is_context_id_then_payload() {
    let dg = HttpDatagram::new(0, vec![0xde, 0xad]);
    assert_eq!(dg.encode(), Ok(vec![0x00, 0xde, 0xad]));
    let dg = HttpDatagram::new(16_384, vec![7]);
    assert_eq!(dg.encode(), Ok(vec![0x80, 0x00, 0x40, 0x00, 7]));
    let empty = HttpDatagram::new(0, Vec::new());
    assert_eq!(empty.encode(), Ok(vec![0x00]));
    assert_eq!(HttpDatagram::decode(&[0x00]), Ok(empty));
}

#[test]
fn datagram_errors() {
    let dg = HttpDatagram::new(1u64 << 62, vec![1]);
    assert_eq!(dg.encode(), Err(EncodeError::OutOfRange));
    assert_eq!(HttpDatagram::decode(&[]), Err(DecodeError::Truncated));
    assert_eq!(HttpDatagram::decode(&[0x40]), Err(DecodeError::Truncated));
}
