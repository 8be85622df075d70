use sim::messages::{
    decode_request, decode_response, decode_string, encode_command, encode_request,
    encode_response, ApprovalRequest, ApprovalResponse, Command,
};

fn sample_request() -> ApprovalRequest {
    ApprovalRequest {
        id: Some("AbCdEfGh01234567".to_string()),
        host: Some("build-1".to_string()),
        user: Some("alice".to_string()),
        command: Some(Command {
            cwd: Some("/home/alice".to_string()),
            command: Some("whoami".to_string()),
            args: vec!["whoami".to_string()],
            environ: vec![],
        }),
        justification: None,
    }
}

#[test]
fn response_exact_bytes() {
    let r = ApprovalResponse { id: None, approved: Some(true), comment: None };
    assert_eq!(encode_response(&r), vec![0x10, 0x01]);
    let r = ApprovalResponse { id: Some("x".to_string()), approved: Some(false), comment: Some("no".to_string()) };
    assert_eq!(encode_response(&r), vec![0x0a, 0x01, b'x', 0x10, 0x00, 0x1a, 0x02, b'n', b'o']);
    let r = ApprovalResponse { id: None, approved: None, comment: None };
    assert_eq!(encode_response(&r), Vec::<u8>::new());
}

#[test]
fn command_exact_bytes() {
    let c = Command {
        cwd: Some("/".to_string()),
        command: Some("ls".to_string()),
        args: vec!["ls".to_string(), "-l".to_string()],
        environ: vec![],
    };
    assert_eq!(
        encode_command(&c),
        vec![0x0a, 0x01, b'/', 0x12, 0x02, b'l', b's', 0x1a, 0x02, b'l', b's', 0x1a, 0x02, b'-', b'l']
    );
}

#[test]
fn request_round_trip() {
    let r = sample_request();
    let bytes = encode_request(&r);
    assert_eq!(decode_request(&bytes), Some(r));
    let mut r2 = sample_request();
    r2.justification = Some("deploy ☃".to_string());
    r2.command.as_mut().unwrap().environ = vec!["A=1".to_string(), "B=2".to_string()];
    r2.command.as_mut().unwrap().args.push("--all".to_string());
    let bytes = encode_request(&r2);
    assert_eq!(decode_request(&bytes), Some(r2));
    let empty = ApprovalRequest { id: None, host: None, user: None, command: None, justification: None };
    assert_eq!(decode_request(&encode_request(&empty)), Some(empty));
}

#[test]
fn request_starts_with_id_field() {
    let bytes = encode_request(&sample_request());
    assert_eq!(&bytes[..2], &[0x0a, 16]);
    assert_eq!(&bytes[2..18], b"AbCdEfGh01234567");
}

#[test]
fn response_round_trip() {
    for approved in [None, Some(true), Some(false)] {
        for comment in [None, Some(String::new()), Some("wrong window".to_string())] {
            let r = ApprovalResponse { id: Some("abc".to_string()), approved, comment };
            assert_eq!(decode_response(&encode_response(&r)), Some(r));
        }
    }
}

#[test]
fn response_skips_unknown_fields() {
    let mut bytes = encode_response(&ApprovalResponse { id: None, approved: Some(true), comment: None });
    // field 9, string; field 10, varint; field 11, fixed64; field 12, fixed32.
    bytes.extend_from_slice(&[0x4a, 0x03, b'x', b'y', b'z', 0x50, 0x05, 0x59, 1, 2, 3, 4, 5, 6, 7, 8, 0x65, 1, 2, 3, 4]);
    assert_eq!(
        decode_response(&bytes),
        Some(ApprovalResponse { id: None, approved: Some(true), comment: None })
    );
    // A known number with another wire type is skipped too.
    assert_eq!(
        decode_response(&[0x12, 0x01, 0x01, 0x10, 0x01]),
        Some(ApprovalResponse { id: None, approved: Some(true), comment: None })
    );
}

#[test]
fn response_last_value_wins_and_nonzero_is_true() {
    assert_eq!(
        decode_response(&[0x10, 0x00, 0x10, 0x05]),
        Some(ApprovalResponse { id: None, approved: Some(true), comment: None })
    );
}

#[test]
fn nested_command_fields_merge() {
    let bytes = [0x22, 0x03, 0x0a, 0x01, b'/', 0x22, 0x04, 0x12, 0x02, b'l', b's'];
    let r = decode_request(&bytes).unwrap();
    let c = r.command.unwrap();
    assert_eq!(c.cwd, Some("/".to_string()));
    assert_eq!(c.command, Some("ls".to_string()));
}

#[test]
fn invalid_utf8_is_rejected() {
    assert_eq!(decode_response(&[0x1a, 0x02, 0xc3, 0x28]), None);
    assert_eq!(decode_request(&[0x0a, 0x01, 0xff]), None);
    assert_eq!(decode_string(&[0xe2, 0x98, 0x83]), Some("☃".to_string()));
    assert_eq!(decode_string(&[0xed, 0xa0, 0x80]), None);
    assert_eq!(decode_string(&[]), Some(String::new()));
}

#[test]
fn truncated_messages_are_rejected() {
    let bytes = encode_request(&sample_request());
    assert_eq!(decode_request(&bytes[..bytes.len() - 1]), None);
    assert_eq!(decode_response(&[0x10]), None);
}
