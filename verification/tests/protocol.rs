use tunnix::crypto::Crypto;
use tunnix::envelope::{open, seal, EnvelopeError};
use tunnix::protocol::{Frame, Message, ProtocolError};

#[test]
fn protocol_test_message_serialization() {
    let msg = Message::Connect {
        conn_id: 123,
        host: "example.com".to_string(),
        port: 443,
    };

    let bytes = msg.to_bytes().unwrap();
    let decoded = Message::from_bytes(&bytes).unwrap();

    match decoded {
        Message::Connect { conn_id, host, port } => {
            assert_eq!(conn_id, 123);
            assert_eq!(host, "example.com");
            assert_eq!(port, 443);
        }
        _ => panic!("Wrong message type"),
    }
}

#[test]
fn protocol_test_data_message() {
    let data = vec![1, 2, 3, 4, 5];
    let msg = Message::Data {
        conn_id: 456,
        data: data.clone(),
    };

    let bytes = msg.to_bytes().unwrap();
    let decoded = Message::from_bytes(&bytes).unwrap();

    match decoded {
        Message::Data { conn_id, data: decoded_data } => {
            assert_eq!(conn_id, 456);
            assert_eq!(decoded_data, data);
        }
        _ => panic!("Wrong message type"),
    }
}

#[test]
fn test_exec_messages() {
    for msg in [
        Message::Exec { conn_id: 7, cmd: Some("ls /home".into()), cols: 80, rows: 24, term: "xterm-256color".into() },
        Message::Exec { conn_id: 8, cmd: None, cols: 120, rows: 40, term: "screen-256color".into() },
        Message::Resize { conn_id: 7, cols: 100, rows: 30 },
        Message::ExitStatus { conn_id: 7, code: 42 },
    ] {
        let bytes = msg.to_bytes().unwrap();
        let decoded = Message::from_bytes(&bytes).unwrap();
        match (msg, decoded) {
            (
                Message::Exec { conn_id: a, cmd: c1, cols: cl1, rows: r1, term: t1 },
                Message::Exec { conn_id: b, cmd: c2, cols: cl2, rows: r2, term: t2 },
            ) => {
                assert_eq!(a, b);
                assert_eq!(c1, c2);
                assert_eq!((cl1, r1), (cl2, r2));
                assert_eq!(t1, t2);
            }
            (
                Message::Resize { conn_id: a, cols: cl1, rows: r1 },
                Message::Resize { conn_id: b, cols: cl2, rows: r2 },
            ) => {
                assert_eq!(a, b);
                assert_eq!((cl1, r1), (cl2, r2));
            }
            (
                Message::ExitStatus { conn_id: a, code: c1 },
                Message::ExitStatus { conn_id: b, code: c2 },
            ) => {
                assert_eq!(a, b);
                assert_eq!(c1, c2);
            }
            _ => panic!("Wrong message type"),
        }
    }
}

fn every_message() -> Vec<Message> {
    vec![
        Message::Connect { conn_id: 1, host: "h\u{e9}te".to_string(), port: 65535 },
        Message::Data { conn_id: u32::MAX, data: vec![0, 255] },
        Message::Close { conn_id: 0 },
        Message::Ping,
        Message::Pong,
        Message::Error { conn_id: None, message: String::new() },
        Message::Error { conn_id: Some(9), message: "why".to_string() },
        Message::Reset,
        Message::Exec { conn_id: 3, cmd: None, cols: 1, rows: 2, term: String::new() },
        Message::Exec { conn_id: 3, cmd: Some("id".to_string()), cols: 1, rows: 2, term: "vt100".to_string() },
        Message::Resize { conn_id: 3, cols: 80, rows: 24 },
        Message::ExitStatus { conn_id: 3, code: -1 },
        Message::Abort { conn_id: 3 },
        Message::Pull { conn_id: 4, paths: vec!["/a".to_string(), String::new()], level: -7 },
        Message::Push { conn_id: 5, path: "/tmp".to_string() },
    ]
}

#[test]
fn every_message_is_read_back() {
    for msg in every_message() {
        let bytes = msg.to_bytes().unwrap();
        let read = Message::from_bytes(&bytes).unwrap();
        assert_eq!(format!("{:?}", read), format!("{:?}", msg));
    }
}

#[test]
fn no_two_messages_share_their_bytes() {
    let all: Vec<Vec<u8>> = every_message().iter().map(|m| m.to_bytes().unwrap()).collect();
    for (i, x) in all.iter().enumerate() {
        for (j, y) in all.iter().enumerate() {
            assert_eq!(x.starts_with(y), i == j);
        }
    }
}

#[test]
fn the_binary_form_is_fixed() {
    let connect = Message::Connect { conn_id: 0x0102_0304, host: "ab".to_string(), port: 0x1f90 };
    assert_eq!(
        connect.to_bytes().unwrap(),
        vec![0, 0, 0, 0, 4, 3, 2, 1, 2, 0, 0, 0, 0, 0, 0, 0, b'a', b'b', 0x90, 0x1f]
    );
    let data = Message::Data { conn_id: 2, data: vec![7] };
    assert_eq!(
        data.to_bytes().unwrap(),
        vec![1, 0, 0, 0, 2, 0, 0, 0, 1, 0, 0, 0, 0, 0, 0, 0, 7]
    );
    let error = Message::Error { conn_id: Some(1), message: "x".to_string() };
    assert_eq!(
        error.to_bytes().unwrap(),
        vec![5, 0, 0, 0, 1, 1, 0, 0, 0, 1, 0, 0, 0, 0, 0, 0, 0, b'x']
    );
    let exit = Message::ExitStatus { conn_id: 1, code: -2 };
    assert_eq!(
        exit.to_bytes().unwrap(),
        vec![9, 0, 0, 0, 1, 0, 0, 0, 254, 255, 255, 255]
    );
    assert_eq!(Message::Ping.to_bytes().unwrap(), vec![3, 0, 0, 0]);
}

#[test]
fn bytes_behind_a_message_do_not_matter() {
    for msg in every_message() {
        let mut bytes = msg.to_bytes().unwrap();
        bytes.extend_from_slice(&[1, 2, 3]);
        let read = Message::from_bytes(&bytes).unwrap();
        assert_eq!(format!("{:?}", read), format!("{:?}", msg));
    }
}

#[test]
fn bytes_that_are_no_message_are_refused() {
    let malformed: Vec<Vec<u8>> = vec![
        vec![],
        vec![3, 0, 0],
        vec![13, 0, 0, 0],
        vec![2, 0, 0, 0, 1, 0, 0],
        vec![1, 0, 0, 0, 2, 0, 0, 0, 2, 0, 0, 0, 0, 0, 0, 0, 7],
        // A length that is far beyond what follows.
        vec![1, 0, 0, 0, 2, 0, 0, 0, 255, 255, 255, 255, 255, 255, 255, 255, 7],
        // An optional value is marked with 0 or 1.
        vec![5, 0, 0, 0, 2, 0, 0, 0, 0, 0, 0, 0, 0],
        // Text is UTF-8.
        vec![12, 0, 0, 0, 1, 0, 0, 0, 1, 0, 0, 0, 0, 0, 0, 0, 0xff],
    ];
    for bytes in malformed {
        assert!(matches!(Message::from_bytes(&bytes), Err(ProtocolError::Malformed)));
    }
    for msg in every_message() {
        let bytes = msg.to_bytes().unwrap();
        for n in 0..bytes.len() {
            assert!(Message::from_bytes(&bytes[..n]).is_err());
        }
    }
}

#[test]
fn frames_keep_their_payload() {
    let frame = Frame::new(vec![1, 2, 3]);
    assert_eq!(frame.payload(), &[1, 2, 3]);
    assert_eq!(frame.into_payload(), vec![1, 2, 3]);
}

#[test]
fn sealed_messages_are_opened_with_the_same_key_only() {
    let key = Crypto::new("k").unwrap();
    let other = Crypto::new("l").unwrap();
    for msg in every_message() {
        let sealed = seal(&key, &msg).unwrap();
        let read = open(&key, &sealed).unwrap();
        assert_eq!(format!("{:?}", read), format!("{:?}", msg));
        assert_eq!(open(&other, &sealed).unwrap_err(), EnvelopeError::Undecryptable);
    }
    let garbage = key.encrypt(&[200, 0, 0, 0]).unwrap();
    assert_eq!(open(&key, &garbage).unwrap_err(), EnvelopeError::Unreadable);
}
