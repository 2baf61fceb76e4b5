use enroll::codec::{
    be16_value, decode, encode, EnrollError, EnrollFailure, EnrollInit, EnrollRegister,
    EnrollSuccess, Message, MessageBody, Project,
};

fn init_message(challenge: [u8; 8]) -> Message {
    Message { body: MessageBody::EnrollInit(EnrollInit { challenge }) }
}

#[test]
fn scenario_decode_init() {
    let frame = vec![0x00, 0x0A, 0x02, 0xA8, 0x01, 0x02, 0x03, 0x04, 0x05, 0x06, 0x07, 0x08];
    let message = decode(&frame).unwrap();
    assert_eq!(message, init_message([1, 2, 3, 4, 5, 6, 7, 8]));
}

#[test]
fn scenario_encode_success() {
    let message = Message {
        body: MessageBody::EnrollSuccess(EnrollSuccess { reserved: 0, team_number: 5 }),
    };
    let encoded = encode(&message).unwrap();
    assert_eq!(encoded, vec![0x00, 0x08, 0x02, 0xAA, 0x00, 0x00, 0x00, 0x05]);
}

#[test]
fn scenario_encode_failure() {
    let message = Message {
        body: MessageBody::EnrollFailure(EnrollFailure {
            reserved: 0,
            error_number: 1,
            error_description: b"bad".to_vec(),
        }),
    };
    let encoded = encode(&message).unwrap();
    assert_eq!(
        encoded,
        vec![0x00, 0x0B, 0x02, 0xAB, 0x00, 0x00, 0x00, 0x01, 0x62, 0x61, 0x64]
    );
}

#[test]
fn round_trip_init() {
    let message = init_message([0xFF, 0, 1, 2, 3, 4, 5, 0x80]);
    let encoded = encode(&message).unwrap();
    assert_eq!(decode(&encoded).unwrap(), message);
}

#[test]
fn round_trip_register() {
    let message = Message {
        body: MessageBody::EnrollRegister(EnrollRegister {
            challenge: [9, 8, 7, 6, 5, 4, 3, 2],
            team_number: 700,
            project_choice: Project::Onion,
            nonce: [0, 0, 0, 0, 0, 0, 1, 7],
            string_payload: b"alice@example.org\r\nAlice".to_vec(),
        }),
    };
    let encoded = encode(&message).unwrap();
    assert_eq!(decode(&encoded).unwrap(), message);
}

#[test]
fn round_trip_register_empty_payload() {
    let message = Message {
        body: MessageBody::EnrollRegister(EnrollRegister {
            challenge: [0; 8],
            team_number: 0,
            project_choice: Project::Gossip,
            nonce: [0; 8],
            string_payload: Vec::new(),
        }),
    };
    let encoded = encode(&message).unwrap();
    assert_eq!(encoded.len(), 24);
    assert_eq!(decode(&encoded).unwrap(), message);
}

#[test]
fn round_trip_failure() {
    let message = Message {
        body: MessageBody::EnrollFailure(EnrollFailure {
            reserved: 17,
            error_number: 65535,
            error_description: vec![0xFF, 0x00, 0x61],
        }),
    };
    let encoded = encode(&message).unwrap();
    assert_eq!(decode(&encoded).unwrap(), message);
}

#[test]
fn length_prefix_counts_whole_frame() {
    let messages = vec![
        init_message([1; 8]),
        Message {
            body: MessageBody::EnrollSuccess(EnrollSuccess { reserved: 1, team_number: 2 }),
        },
        Message {
            body: MessageBody::EnrollRegister(EnrollRegister {
                challenge: [2; 8],
                team_number: 5,
                project_choice: Project::DHT,
                nonce: [3; 8],
                string_payload: vec![1, 2, 3, 4, 5],
            }),
        },
    ];
    for message in &messages {
        let encoded = encode(message).unwrap();
        let prefix = be16_value(encoded[0], encoded[1]);
        assert_eq!(prefix as usize, encoded.len());
    }
}

#[test]
fn decode_truncated_header() {
    assert_eq!(decode(&vec![0x00, 0x02]), Err(EnrollError::Truncated));
    assert_eq!(decode(&Vec::new()), Err(EnrollError::Truncated));
}

#[test]
fn decode_truncated_fields() {
    // An init frame cut short of its 8-byte challenge.
    assert_eq!(
        decode(&vec![0x00, 0x07, 0x02, 0xA8, 1, 2, 3]),
        Err(EnrollError::Truncated)
    );
    // A success frame cut short of its two 16-bit fields.
    assert_eq!(
        decode(&vec![0x00, 0x06, 0x02, 0xAA, 0, 0]),
        Err(EnrollError::Truncated)
    );
    // A register frame cut short of its nonce.
    let mut frame = vec![0x00, 0x10, 0x02, 0xA9];
    frame.extend_from_slice(&[0; 12]);
    assert_eq!(decode(&frame), Err(EnrollError::Truncated));
}

#[test]
fn decode_takes_prefix_verbatim() {
    // The prefix bytes are part of the frame but their value takes no part
    // in decoding: the frame was already delimited by the transport.
    let frame = vec![0xFF, 0xFF, 0x02, 0xA8, 1, 2, 3, 4, 5, 6, 7, 8];
    assert_eq!(decode(&frame).unwrap(), init_message([1, 2, 3, 4, 5, 6, 7, 8]));
}

#[test]
fn decode_ignores_bytes_past_fixed_fields() {
    // Variants without a trailing variable-length field leave extra bytes
    // unread.
    let frame = vec![0x00, 0x0C, 0x02, 0xAA, 0x00, 0x01, 0x00, 0x02, 0xEE, 0xEE];
    assert_eq!(
        decode(&frame).unwrap(),
        Message { body: MessageBody::EnrollSuccess(EnrollSuccess { reserved: 1, team_number: 2 }) }
    );
}

#[test]
fn decode_invalid_magic() {
    assert_eq!(
        decode(&vec![0x00, 0x08, 0x09, 0x09, 0, 0, 0, 0]),
        Err(EnrollError::InvalidMagic)
    );
}

#[test]
fn decode_register_rejects_unknown_project_code() {
    let mut frame = vec![0x00, 0x18, 0x02, 0xA9];
    frame.extend_from_slice(&[1, 2, 3, 4, 5, 6, 7, 8]); // challenge
    frame.extend_from_slice(&[0x00, 0x05]); // team number
    frame.extend_from_slice(&[0x00, 0x00]); // no project has code 0
    frame.extend_from_slice(&[0; 8]); // nonce
    assert_eq!(decode(&frame), Err(EnrollError::InvalidMagic));
}

#[test]
fn decode_register_reads_project_code() {
    let mut frame = vec![0x00, 0x18, 0x02, 0xA9];
    frame.extend_from_slice(&[1, 2, 3, 4, 5, 6, 7, 8]);
    frame.extend_from_slice(&[0x00, 0x05]);
    frame.extend_from_slice(&[0x9C, 0x07]); // 39943
    frame.extend_from_slice(&[0; 8]);
    let message = decode(&frame).unwrap();
    match message.body {
        MessageBody::EnrollRegister(register) => {
            assert_eq!(register.project_choice, Project::Onion);
            assert_eq!(register.team_number, 5);
            assert_eq!(register.string_payload, Vec::<u8>::new());
        }
        _ => panic!("expected a register body"),
    }
}

#[test]
fn encode_overflow() {
    let message = Message {
        body: MessageBody::EnrollRegister(EnrollRegister {
            challenge: [0; 8],
            team_number: 1,
            project_choice: Project::NSE,
            nonce: [0; 8],
            string_payload: vec![0; 70000],
        }),
    };
    assert_eq!(encode(&message), Err(EnrollError::EncodingOverflow));
    let message = Message {
        body: MessageBody::EnrollFailure(EnrollFailure {
            reserved: 0,
            error_number: 0,
            error_description: vec![0; 65530],
        }),
    };
    assert_eq!(encode(&message), Err(EnrollError::EncodingOverflow));
}

#[test]
fn encode_largest_register() {
    // The largest payload that still fits the 16-bit length prefix.
    let message = Message {
        body: MessageBody::EnrollRegister(EnrollRegister {
            challenge: [1; 8],
            team_number: 1,
            project_choice: Project::RPS,
            nonce: [0; 8],
            string_payload: vec![0x41; 65535 - 24],
        }),
    };
    let encoded = encode(&message).unwrap();
    assert_eq!(encoded.len(), 65535);
    assert_eq!(decode(&encoded).unwrap(), message);
}

#[test]
fn body_size() {
    assert_eq!(MessageBody::EnrollInit(EnrollInit { challenge: [0; 8] }).size(), Ok(10));
    assert_eq!(
        MessageBody::EnrollSuccess(EnrollSuccess { reserved: 0, team_number: 0 }).size(),
        Ok(6)
    );
    assert_eq!(
        MessageBody::EnrollRegister(EnrollRegister {
            challenge: [0; 8],
            team_number: 0,
            project_choice: Project::Gossip,
            nonce: [0; 8],
            string_payload: vec![0; 4],
        })
        .size(),
        Ok(26)
    );
    assert_eq!(
        MessageBody::EnrollFailure(EnrollFailure {
            reserved: 0,
            error_number: 0,
            error_description: vec![0; 3],
        })
        .size(),
        Ok(9)
    );
}

#[test]
fn project_codes() {
    let table = vec![
        (Project::Gossip, 2961),
        (Project::DHT, 4963),
        (Project::RPS, 15882),
        (Project::NSE, 7071),
        (Project::Onion, 39943),
    ];
    for (project, code) in table {
        assert_eq!(project.code(), code);
        assert_eq!(Project::from_code(code), Some(project));
    }
    assert_eq!(Project::from_code(0), None);
    assert_eq!(Project::from_code(2962), None);
}

#[test]
fn be16_value_reads_big_endian() {
    assert_eq!(be16_value(0x02, 0xA8), 680);
    assert_eq!(be16_value(0x00, 0x00), 0);
    assert_eq!(be16_value(0xFF, 0xFF), 65535);
}
