use dtch::protocol::{Request, RequestError, WindowSize, REQUEST_LEN};

fn size(rows: u16, cols: u16, xpixel: u16, ypixel: u16) -> WindowSize {
    WindowSize {
        rows,
        cols,
        xpixel,
        ypixel,
    }
}

/// Verifies that both protocol variants survive serialization and parsing.
#[test]
fn request_round_trips() {
    let requests = [
        Request::Attach(WindowSize {
            rows: 24,
            cols: 80,
            xpixel: 640,
            ypixel: 480,
        }),
        Request::Resize(WindowSize {
            rows: 60,
            cols: 160,
            xpixel: 0,
            ypixel: 0,
        }),
    ];

    for request in requests {
        let mut bytes = Vec::new();
        request.write_to(&mut bytes);
        assert_eq!(Request::read_from(bytes.as_slice()).unwrap(), request);
    }
}

#[test]
fn request_bytes_are_exact() {
    let mut bytes = Vec::new();
    Request::Attach(size(24, 80, 640, 480)).write_to(&mut bytes);
    assert_eq!(bytes, b"DTCH\x01\x00\x18\x00\x50\x02\x80\x01\xe0".to_vec());
    assert_eq!(bytes.len(), REQUEST_LEN);
    Request::Resize(size(0xffff, 0x0102, 0, 1)).write_to(&mut bytes);
    assert_eq!(
        bytes[REQUEST_LEN..].to_vec(),
        b"DTCH\x02\xff\xff\x01\x02\x00\x00\x00\x01".to_vec()
    );
}

#[test]
fn request_ignores_what_follows() {
    let mut bytes = Vec::new();
    let request = Request::Resize(size(1, 2, 3, 4));
    request.write_to(&mut bytes);
    bytes.extend_from_slice(b"typed ahead");
    assert_eq!(Request::read_from(&bytes), Ok(request));
}

#[test]
fn short_requests_are_truncated() {
    let mut bytes = Vec::new();
    Request::Attach(size(24, 80, 0, 0)).write_to(&mut bytes);
    for len in 0..REQUEST_LEN {
        assert_eq!(Request::read_from(&bytes[..len]), Err(RequestError::Truncated));
    }
    assert_eq!(RequestError::Truncated.message(), "failed to fill whole buffer");
}

#[test]
fn wrong_magic_is_an_invalid_handshake() {
    let bytes = *b"DTCX\x01\x00\x18\x00\x50\x02\x80\x01\xe0";
    assert_eq!(Request::read_from(&bytes), Err(RequestError::InvalidHandshake));
    assert_eq!(RequestError::InvalidHandshake.message(), "invalid client handshake");
    let both = *b"dtch\x09\x00\x18\x00\x50\x02\x80\x01\xe0";
    assert_eq!(Request::read_from(&both), Err(RequestError::InvalidHandshake));
}

#[test]
fn other_kinds_are_unknown() {
    for kind in [0u8, 3, 0xff] {
        let mut bytes = *b"DTCH\x01\x00\x18\x00\x50\x02\x80\x01\xe0";
        bytes[4] = kind;
        assert_eq!(Request::read_from(&bytes), Err(RequestError::UnknownRequest));
    }
    assert_eq!(RequestError::UnknownRequest.message(), "unknown client request");
}
