use doh_proxy::tcpserver::{frame_tcp_response, parse_frame_length};

#[test]
fn frame_length_is_big_endian() {
    assert_eq!(parse_frame_length(0x00, 0x1D), 29);
    assert_eq!(parse_frame_length(0x01, 0x00), 256);
    assert_eq!(parse_frame_length(0xFF, 0xFF), 65535);
    assert_eq!(parse_frame_length(0x00, 0x00), 0);
}

#[test]
fn framed_reply_carries_its_length_prefix() {
    let reply: Vec<u8> = (0u8..29u8).collect();
    let framed = frame_tcp_response(&reply).unwrap();
    assert_eq!(framed.len(), 31);
    assert_eq!(framed[0], 0x00);
    assert_eq!(framed[1], 0x1D);
    assert_eq!(&framed[2..], &reply[..]);
    assert_eq!(
        parse_frame_length(framed[0], framed[1]) as usize,
        reply.len()
    );
}

#[test]
fn long_reply_frames_with_a_two_byte_prefix() {
    let reply = vec![7u8; 300];
    let framed = frame_tcp_response(&reply).unwrap();
    assert_eq!(framed[0], 0x01);
    assert_eq!(framed[1], 0x2C);
    assert_eq!(framed.len(), 302);
}

#[test]
fn oversize_reply_cannot_be_framed() {
    let reply = vec![0u8; 65536];
    assert!(frame_tcp_response(&reply).is_none());
    let just_fits = vec![0u8; 65535];
    assert!(frame_tcp_response(&just_fits).is_some());
}
