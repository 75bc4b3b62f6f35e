use chess_net::codec::{DecodeError, Message, RawMessage, TaggedMessage};
use chess_net::net::{round_trip_encrypted, round_trip_plaintext, Error, NetManager};

fn keyed_pair() -> (NetManager, NetManager) {
    let k1 = [7u8; 32];
    let k2 = [9u8; 32];
    let mut alice = NetManager::new();
    let mut bob = NetManager::new();
    // alice seals with k1, which bob opens; bob seals with k2, which alice opens
    alice.enable_encryption(k2, k1);
    bob.enable_encryption(k1, k2);
    (alice, bob)
}

#[test]
fn test_plaintext_concrete_wire() {
    let mut sender = NetManager::new();
    let wire = sender.serialize_packet(RawMessage { bytes: vec![0x01, 0x02, 0x03] });
    assert_eq!(wire, vec![0x00, 0x03, 0x01, 0x02, 0x03]);

    let mut receiver = NetManager::new();
    receiver.feed(&vec![0x00, 0x03, 0x01]);
    let early: Result<Option<RawMessage>, Error> = receiver.process_data();
    assert!(matches!(early, Ok(None)));
    receiver.feed(&vec![0x02, 0x03]);
    let got: Result<Option<RawMessage>, Error> = receiver.process_data();
    match got {
        Ok(Some(m)) => assert_eq!(m.bytes, vec![0x01, 0x02, 0x03]),
        _ => panic!("expected a decoded message"),
    }
}

#[test]
fn test_encrypted_round_trip() {
    let (mut alice, mut bob) = keyed_pair();

    let wire = alice.serialize_packet(RawMessage { bytes: vec![10, 20, 30, 40] });
    // ciphertext keeps the plaintext length; the tag adds 16 bytes
    assert_eq!(wire.len(), 2 + 4 + 16);
    assert_eq!(wire[0], 0);
    assert_eq!(wire[1], 20);
    // the wire bytes are not the plaintext
    assert_ne!(&wire[2..6], &[10, 20, 30, 40]);

    bob.feed(&wire);
    let got: Result<Option<RawMessage>, Error> = bob.process_data();
    match got {
        Ok(Some(m)) => assert_eq!(m.bytes, vec![10, 20, 30, 40]),
        _ => panic!("expected a decoded message"),
    }

    // and in the other direction, with the roles of the keys swapped
    let wire = bob.serialize_packet(RawMessage { bytes: vec![99] });
    alice.feed(&wire);
    let got: Result<Option<RawMessage>, Error> = alice.process_data();
    match got {
        Ok(Some(m)) => assert_eq!(m.bytes, vec![99]),
        _ => panic!("expected a decoded message"),
    }
}

#[test]
fn test_fragmentation_one_byte_at_a_time() {
    let (mut alice, mut bob) = keyed_pair();
    let wire = alice.serialize_packet(RawMessage { bytes: vec![5, 6, 7, 8, 9] });

    for (i, b) in wire.iter().enumerate() {
        let got: Result<Option<RawMessage>, Error> = bob.process_data();
        assert!(matches!(got, Ok(None)), "frame complete too early at byte {}", i);
        bob.feed(&vec![*b]);
    }
    let got: Result<Option<RawMessage>, Error> = bob.process_data();
    match got {
        Ok(Some(m)) => assert_eq!(m.bytes, vec![5, 6, 7, 8, 9]),
        _ => panic!("expected a decoded message"),
    }
}

#[test]
fn test_fragmentation_matches_whole() {
    // the same frame, fed whole and fed in two chunks, yields the same body
    let frame = vec![0x00, 0x04, 0xAA, 0xBB, 0xCC, 0xDD];

    let mut whole = NetManager::new();
    whole.feed(&frame);
    let a = whole.try_take_frame().unwrap().unwrap();

    let mut split = NetManager::new();
    split.feed(&frame[..3].to_vec());
    assert!(matches!(split.try_take_frame(), Ok(None)));
    split.feed(&frame[3..].to_vec());
    let b = split.try_take_frame().unwrap().unwrap();

    assert_eq!(a, b);
    assert_eq!(a, vec![0xAA, 0xBB, 0xCC, 0xDD]);
}

#[test]
fn test_length_enforcement() {
    // 1025 > 1024 is rejected at once, though no body byte ever arrives
    let mut ch = NetManager::new();
    ch.feed(&vec![0x04, 0x01]);
    let got: Result<Option<RawMessage>, Error> = ch.process_data();
    assert_eq!(got.unwrap_err(), Error::InvalidPacketLength);

    // 1024 exactly is accepted once the body arrives
    let mut ch = NetManager::new();
    ch.feed(&vec![0x04, 0x00]);
    assert!(matches!(ch.try_take_frame(), Ok(None)));
    ch.feed(&vec![0x5A; 1024]);
    let body = ch.try_take_frame().unwrap().unwrap();
    assert_eq!(body.len(), 1024);
}

#[test]
fn test_tamper_detection() {
    let (mut alice, _) = keyed_pair();
    let wire = alice.serialize_packet(RawMessage { bytes: vec![1, 2, 3] });

    // flipping any single bit of the ciphertext or tag fails authentication
    for byte in 2..wire.len() {
        for bit in 0..8 {
            let mut tampered = wire.clone();
            tampered[byte] ^= 1u8 << bit;
            let (_, mut bob) = keyed_pair();
            bob.feed(&tampered);
            let got: Result<Option<RawMessage>, Error> = bob.process_data();
            assert_eq!(
                got.unwrap_err(),
                Error::BadEncryption,
                "flip of byte {} bit {} was accepted",
                byte,
                bit
            );
        }
    }

    // flipping a bit of the length prefix never yields a message: the frame
    // is refused, fails authentication, or is never considered complete
    for byte in 0..2 {
        for bit in 0..8 {
            let mut tampered = wire.clone();
            tampered[byte] ^= 1u8 << bit;
            let (_, mut bob) = keyed_pair();
            bob.feed(&tampered);
            let got: Result<Option<RawMessage>, Error> = bob.process_data();
            assert!(
                !matches!(got, Ok(Some(_))),
                "flip of prefix byte {} bit {} was accepted",
                byte,
                bit
            );
        }
    }
}

#[test]
fn test_nonce_monotonicity() {
    let (mut alice, mut bob) = keyed_pair();
    assert_eq!(alice.send_counter(), 0);
    assert_eq!(bob.receive_counter(), 0);

    for i in 0..5u8 {
        let wire = alice.serialize_packet(RawMessage { bytes: vec![i] });
        assert_eq!(alice.send_counter(), (i + 1) as u64);
        bob.feed(&wire);
        let got: Result<Option<RawMessage>, Error> = bob.process_data();
        match got {
            Ok(Some(m)) => assert_eq!(m.bytes, vec![i]),
            _ => panic!("expected a decoded message"),
        }
        assert_eq!(bob.receive_counter(), (i + 1) as u64);
    }

    // a failed authentication does not advance the receive counter
    bob.feed(&vec![0x00, 0x11]);
    bob.feed(&vec![0x77; 0x11]);
    let got: Result<Option<RawMessage>, Error> = bob.process_data();
    assert_eq!(got.unwrap_err(), Error::BadEncryption);
    assert_eq!(bob.receive_counter(), 5);
}

#[test]
fn test_mode_transition() {
    let k1 = [1u8; 32];
    let k2 = [2u8; 32];
    let mut client = NetManager::new();
    let mut server = NetManager::new();
    assert!(!client.is_encryption_enabled());

    // handshake phase: plaintext frames pass through unchanged
    let wire = client.serialize_packet(RawMessage { bytes: vec![42, 43] });
    server.feed(&wire);
    let got: Result<Option<RawMessage>, Error> = server.process_data();
    match got {
        Ok(Some(m)) => assert_eq!(m.bytes, vec![42, 43]),
        _ => panic!("expected a decoded message"),
    }

    // keys installed once: every subsequent frame is sealed
    client.enable_encryption(k2, k1);
    server.enable_encryption(k1, k2);
    assert!(client.is_encryption_enabled());

    let plain_form = vec![0x00, 0x02, 42, 43];
    let wire = client.serialize_packet(RawMessage { bytes: vec![42, 43] });
    assert_ne!(wire, plain_form);
    server.feed(&wire);
    let got: Result<Option<RawMessage>, Error> = server.process_data();
    match got {
        Ok(Some(m)) => assert_eq!(m.bytes, vec![42, 43]),
        _ => panic!("expected a decoded message"),
    }

    // a bare plaintext frame is no longer accepted in encrypted mode
    server.feed(&plain_form);
    let got: Result<Option<RawMessage>, Error> = server.process_data();
    assert_eq!(got.unwrap_err(), Error::BadEncryption);
}

#[test]
fn test_invalid_packet_classification() {
    // a frame whose body the codec rejects is an InvalidPacket
    let mut ch = NetManager::new();
    ch.feed(&vec![0x00, 0x02, 0x02, 0x41]); // wrong leading tag byte
    let got: Result<Option<TaggedMessage>, Error> = ch.process_data();
    assert_eq!(got.unwrap_err(), Error::InvalidPacket);

    // the same body decodes fine as a raw message
    let mut ch = NetManager::new();
    ch.feed(&vec![0x00, 0x02, 0x02, 0x41]);
    let got: Result<Option<RawMessage>, Error> = ch.process_data();
    assert_eq!(got.unwrap().unwrap().bytes, vec![0x02, 0x41]);
}

#[test]
fn test_tagged_codec() {
    let m = TaggedMessage { payload: vec![b'h', b'i'] };
    let enc = m.encode();
    assert_eq!(enc, vec![0x01, b'h', b'i']);
    let back = TaggedMessage::decode(&enc).unwrap();
    assert_eq!(back.payload, vec![b'h', b'i']);

    // each way decoding fails, classified
    assert_eq!(TaggedMessage::decode(&vec![]).unwrap_err(), DecodeError::MissingField);
    assert_eq!(
        TaggedMessage::decode(&vec![0x02, b'h']).unwrap_err(),
        DecodeError::MalformedStructure
    );
    assert_eq!(
        TaggedMessage::decode(&vec![0x01, 0xC3, 0xA9]).unwrap_err(),
        DecodeError::InvalidText
    );
}

#[test]
fn test_two_frames_in_one_feed() {
    let mut ch = NetManager::new();
    ch.feed(&vec![0x00, 0x01, 0xAA, 0x00, 0x02, 0xBB, 0xCC]);
    assert_eq!(ch.try_take_frame().unwrap().unwrap(), vec![0xAA]);
    assert_eq!(ch.try_take_frame().unwrap().unwrap(), vec![0xBB, 0xCC]);
    assert!(matches!(ch.try_take_frame(), Ok(None)));
}

#[test]
fn test_raw_codec_identity() {
    let m = RawMessage { bytes: vec![0, 255, 128] };
    let enc = m.encode();
    assert_eq!(enc, vec![0, 255, 128]);
    let back = RawMessage::decode(&enc).unwrap();
    assert_eq!(back.bytes, vec![0, 255, 128]);
}

#[test]
fn test_round_trip_functions() {
    let out = round_trip_plaintext(vec![1, 2, 3, 4]);
    assert_eq!(out, vec![1, 2, 3, 4]);
    let out = round_trip_encrypted([3u8; 32], [4u8; 32], vec![250, 251, 252]);
    assert_eq!(out, vec![250, 251, 252]);
    let out = round_trip_encrypted([0u8; 32], [0u8; 32], vec![]);
    assert_eq!(out, Vec::<u8>::new());
}
