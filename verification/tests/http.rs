use tapo::http::{parse, post, read_head};

#[test]
fn a_reply_is_only_read_once_all_of_it_is_here() {
    let whole = b"HTTP/1.1 200 OK\r\nSet-Cookie: TP_SESSIONID=ABC123;TIMEOUT=1440\r\n\
                  Content-Length: 4\r\n\r\nseed";
    // Every prefix short of the last byte is "not yet", not a truncated read.
    for cut in 0..whole.len() {
        assert!(parse(&whole[..cut]).is_none(), "parsed at {cut} bytes");
    }
    let (reply, used) = parse(whole).expect("whole reply");
    assert_eq!((reply.status, used), (200, whole.len()));
    assert_eq!(reply.session.as_deref(), Some("ABC123"));
    assert_eq!(reply.body, b"seed");

    // Two replies in one window: the first is returned and the second left alone.
    let mut two = whole.to_vec();
    two.extend_from_slice(whole);
    let (_, used) = parse(&two).expect("first of two");
    assert_eq!(&two[used..], whole);
}

#[test]
fn a_request_carries_the_session_only_once_there_is_one() {
    let out = post("/app/handshake1", "10.0.0.4", None, b"0123456789abcdef");
    let text = String::from_utf8_lossy(&out);
    assert!(text.starts_with("POST /app/handshake1 HTTP/1.1\r\n"));
    assert!(text.contains("Content-Length: 16\r\n"));
    assert!(!text.contains("Cookie:"));
    assert!(out.ends_with(b"\r\n\r\n0123456789abcdef"));

    let out = post("/app/handshake2", "10.0.0.4", Some("ABC"), b"");
    assert!(String::from_utf8_lossy(&out).contains("Cookie: TP_SESSIONID=ABC\r\n"));
}

#[test]
fn a_request_is_written_to_the_letter() {
    let out = post("/app/request?seq=-5", "dimmer", Some("id"), &[0xff, 0x00]);
    let mut expected = b"POST /app/request?seq=-5 HTTP/1.1\r\n\
        Host: dimmer\r\n\
        Content-Type: application/octet-stream\r\n\
        Content-Length: 2\r\n\
        Connection: keep-alive\r\n\
        Cookie: TP_SESSIONID=id\r\n\r\n"
        .to_vec();
    expected.extend_from_slice(&[0xff, 0x00]);
    assert_eq!(out, expected);
}

#[test]
fn headers_are_read_whatever_their_case_and_spacing() {
    let (reply, used) =
        parse(b"HTTP/1.1  403   Forbidden\r\ncontent-LENGTH:\t3 \r\nno colon here\r\n\r\nabcdef")
            .expect("whole");
    assert_eq!(reply.status, 403);
    assert_eq!(reply.session, None);
    assert_eq!(reply.body, b"abc");
    assert_eq!(used, 67);

    // A later header of the same name is the one that counts, and a length that is no number
    // is no length.
    let (reply, _) = parse(b"X 7\r\nContent-Length: 9\r\nContent-Length: many\r\n\
        set-cookie: TP_SESSIONID=A\r\nSET-COOKIE: OTHER=B\r\nSet-Cookie: TP_SESSIONID=C;D\r\n\r\n")
        .expect("whole");
    assert_eq!(reply.status, 7);
    assert_eq!(reply.session.as_deref(), Some("C"));
    assert_eq!(reply.body, b"");
}

#[test]
fn what_is_no_reply_is_never_read() {
    for bytes in [
        &b""[..],
        b"\r\n\r\n",
        b"HTTP/1.1\r\n\r\n",
        b"HTTP/1.1 OK\r\n\r\n",
        b"HTTP/1.1 70000 Too large\r\n\r\n",
        b"HTTP/1.1 200 OK\r\nContent-Length: 18446744073709551615\r\n\r\n",
        b"HTTP/1.1 200 OK\n\n",
    ] {
        assert!(parse(bytes).is_none(), "{:?}", String::from_utf8_lossy(bytes));
    }
    let (reply, _) = parse(b"HTTP/1.1 +65535 x\r\n\r\n").expect("the largest status");
    assert_eq!(reply.status, 65535);
}

#[test]
fn a_head_that_is_not_utf8_is_still_read() {
    let (reply, used) = parse(b"HTTP/1.1 200 \xff\xfe\r\nX-\xc3: \x80\r\nContent-Length: 1\r\n\r\n\xff!")
        .expect("whole");
    assert_eq!(reply.status, 200);
    assert_eq!(reply.body, [0xff]);
    assert_eq!(used, 47);
}

#[test]
fn a_head_is_read_line_by_line() {
    let head = read_head("HTTP/1.1 200 OK\r\nContent-Length: 12\r\nSet-Cookie: TP_SESSIONID=X;Y\r\n\r\n")
        .expect("a head");
    assert_eq!(head.status, 200);
    assert_eq!(head.length, 12);
    assert_eq!(head.session.as_deref(), Some("X"));
    let head = read_head("x 404").expect("a head");
    assert_eq!((head.status, head.length, head.session), (404, 0, None));
    assert!(read_head("").is_none());
    assert!(read_head("404").is_none());
    assert!(read_head("HTTP/1.1 -1 x").is_none());
}
