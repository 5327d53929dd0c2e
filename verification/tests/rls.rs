use ri::rls::{frame_message, header_step, message_from_bytes, HeaderStep, RlsError};

#[test]
fn frames_carry_the_byte_count() {
    assert_eq!(frame_message("{}"), "Content-Length: 2\r\n\r\n{}");
    assert_eq!(frame_message("é"), "Content-Length: 2\r\n\r\né");
    assert_eq!(frame_message(""), "Content-Length: 0\r\n\r\n");
}

#[test]
fn header_lines() {
    assert_eq!(header_step("Content-Length: 42\r\n", None), Ok(HeaderStep::More(Some(42))));
    assert_eq!(header_step("\r\n", Some(42)), Ok(HeaderStep::Body(42)));
    assert_eq!(header_step("\r\n", None), Ok(HeaderStep::Body(0)));
    assert_eq!(header_step("", Some(1)), Err(RlsError::StreamClosed));
    assert_eq!(header_step("Content-Length: x\r\n", None), Err(RlsError::BadContentLength));
    assert_eq!(
        header_step("Content-Type: text\r\n", Some(3)),
        Ok(HeaderStep::More(Some(3)))
    );
    assert_eq!(header_step("garbage\r\n", None), Ok(HeaderStep::More(None)));
}

#[test]
fn a_frame_reads_back() {
    let frame = frame_message("hello");
    let header = &frame[..frame.find('\n').unwrap() + 1];
    let step = header_step(header, None);
    assert_eq!(step, Ok(HeaderStep::More(Some(5))));
    assert_eq!(header_step("\r\n", Some(5)), Ok(HeaderStep::Body(5)));
}

#[test]
fn message_bodies() {
    assert_eq!(message_from_bytes(b"hi"), Ok("hi".to_string()));
    assert_eq!(message_from_bytes(&[0xff]), Err(RlsError::BadUtf8));
}

/// Reads one message from the front of `stream` line by line, as a reader
/// of the language server's output does; gives the message and the bytes
/// left after it.
fn read_from(stream: &[u8]) -> Result<(String, &[u8]), RlsError> {
    let mut rest = stream;
    let mut content_length = None;
    let n = loop {
        let end = rest.iter().position(|b| *b == b'\n').map_or(rest.len(), |i| i + 1);
        let line = std::str::from_utf8(&rest[..end]).map_err(|_| RlsError::BadUtf8)?;
        rest = &rest[end..];
        match header_step(line, content_length)? {
            HeaderStep::More(c) => content_length = c,
            HeaderStep::Body(n) => break n,
        }
    };
    if rest.len() < n {
        return Err(RlsError::StreamClosed);
    }
    Ok((message_from_bytes(&rest[..n])?, &rest[n..]))
}

#[test]
fn a_framed_message_reads_back_from_a_stream() {
    let mut stream = frame_message("{\"id\":1,\"é\":\"ü\"}").into_bytes();
    stream.extend_from_slice(b"Content-Length: 2\r\n\r\nok");
    let (first, rest) = read_from(&stream).unwrap();
    assert_eq!(first, "{\"id\":1,\"é\":\"ü\"}");
    assert_eq!(rest, b"Content-Length: 2\r\n\r\nok");
    assert_eq!(read_from(rest), Ok(("ok".to_string(), &b""[..])));
    assert_eq!(read_from(b"Content-Length: 9\r\n\r\nok"), Err(RlsError::StreamClosed));
    assert_eq!(read_from(b""), Err(RlsError::StreamClosed));
}
