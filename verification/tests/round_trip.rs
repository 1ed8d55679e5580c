use mailsignals::mime::{decode_body, parse_message};

fn bodies() -> Vec<Vec<u8>> {
    let mut all_bytes = Vec::new();
    for b in 0..=255u8 {
        all_bytes.push(b);
    }
    vec![
        Vec::new(),
        b"a".to_vec(),
        b"hello world".to_vec(),
        b"line one\r\nline two\r\n".to_vec(),
        b"a=b; soft = breaks? \t tabs ".to_vec(),
        "caf\u{e9} \u{2014} na\u{ef}ve".as_bytes().to_vec(),
        vec![b'x'; 300],
        all_bytes,
    ]
}

fn message(encoding: &str, encoded: &[u8]) -> Vec<u8> {
    let mut raw = Vec::new();
    raw.extend_from_slice(b"Subject: round trip\r\nContent-Transfer-Encoding: ");
    raw.extend_from_slice(encoding.as_bytes());
    raw.extend_from_slice(b"\r\n\r\n");
    raw.extend_from_slice(encoded);
    raw
}

#[test]
fn identity_round_trip() {
    for body in bodies() {
        for encoding in ["7bit", "8bit", "binary"] {
            let part = parse_message(&message(encoding, &body)).unwrap();
            assert!(part.is_leaf());
            assert_eq!(part.body, body);
        }
        assert_eq!(decode_body(&body, None), body);
    }
}

#[test]
fn base64_round_trip() {
    for body in bodies() {
        let encoded = data_encoding::BASE64.encode(&body);
        let part = parse_message(&message("base64", encoded.as_bytes())).unwrap();
        assert!(part.is_leaf());
        assert!(part.children.is_empty());
        assert_eq!(part.body, body);
        assert_eq!(decode_body(encoded.as_bytes(), Some("Base64".to_string())), body);
    }
}

#[test]
fn base64_round_trip_with_wrapped_lines() {
    for body in bodies() {
        let encoded = data_encoding::BASE64_MIME.encode(&body);
        let part = parse_message(&message("base64", encoded.as_bytes())).unwrap();
        assert_eq!(part.body, body);
    }
}

#[test]
fn quoted_printable_round_trip() {
    for body in bodies() {
        let encoded = quoted_printable::encode_binary(&body);
        let part = parse_message(&message("quoted-printable", &encoded)).unwrap();
        assert!(part.is_leaf());
        assert!(part.children.is_empty());
        assert_eq!(part.body, body);
        assert_eq!(decode_body(&encoded, Some("QUOTED-PRINTABLE".to_string())), body);
    }
}
