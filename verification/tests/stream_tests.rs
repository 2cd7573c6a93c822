//! Frame codec tests.

use crossgate::stream::{EchoFrame, EchoFrameHandle, FrameError, JT808Frame, JT808Handle};

#[test]
fn test_echo_read() {
    match EchoFrame::read(b"hello\r\n") {
        Ok((EchoFrame::Response(s), n)) => {
            assert_eq!(s, "world\r\n");
            assert_eq!(n, 7);
        }
        other => panic!("hello earns world, not {:?}", other),
    }

    match EchoFrame::read(b"  haha\nrest") {
        Ok((EchoFrame::Response(s), n)) => {
            assert_eq!(s, "xixi\r\n");
            assert_eq!(n, 7);
        }
        other => panic!("haha earns xixi, not {:?}", other),
    }

    assert!(matches!(EchoFrame::read(b"bye\r\n"), Err(FrameError::Exit)));
    assert!(matches!(EchoFrame::read(b"quit"), Err(FrameError::Exit)));
    assert!(matches!(EchoFrame::read(b""), Err(FrameError::Incomplete)));
    assert!(matches!(
        EchoFrame::read(b"what\r\n"),
        Err(FrameError::ParseError(_))
    ));
}

#[test]
fn test_echo_respond() {
    let r = EchoFrameHandle::respond(&EchoFrame::Response("world\r\n".to_string()));
    assert_eq!(r, "world\r\n");
    let r = EchoFrameHandle::respond(&EchoFrame::Empty);
    assert_eq!(r, "unknown command\r\n");
}

#[test]
fn test_jt808_read() {
    match JT808Frame::read(b"~12345678tail") {
        Ok((JT808Frame::P0200(data), n)) => {
            assert_eq!(&data, b"12345678");
            assert_eq!(n, 9);
        }
        other => panic!("a marked frame carries its payload, not {:?}", other),
    }

    assert!(matches!(JT808Frame::read(b"~123"), Ok((JT808Frame::Empty, 1))));
    assert!(matches!(JT808Frame::read(b"x123"), Ok((JT808Frame::Empty, 1))));
    assert!(matches!(JT808Frame::read(b""), Err(FrameError::Incomplete)));

    assert!(JT808Handle::keep_reading(&JT808Frame::P0200([0; 8])));
    assert!(!JT808Handle::keep_reading(&JT808Frame::Empty));
}
