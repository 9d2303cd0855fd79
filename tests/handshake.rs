use a2squery::{answer_challenge, challenge_request, challenge_token, info_request};

#[test]
fn info_request_is_the_query_payload() {
    assert_eq!(info_request(), b"\xFF\xFF\xFF\xFFTSource Engine Query\x00".to_vec());
}

#[test]
fn challenge_token_is_read_little_endian() {
    let reply = [0xFF, 0xFF, 0xFF, 0xFF, 0x41, 0xEF, 0xBE, 0xAD, 0xDE];
    assert_eq!(challenge_token(&reply), Some(0xDEAD_BEEF));
    assert_eq!(challenge_token(&reply[..8]), None);
}

#[test]
fn challenge_request_appends_token_bytes() {
    let r = challenge_request(0x0102_0304);
    assert_eq!(r.len(), 29);
    assert_eq!(&r[..25], &info_request()[..]);
    assert_eq!(&r[25..], &[4, 3, 2, 1]);
}

#[test]
fn second_datagram_ends_with_the_token() {
    let reply = [0xFF, 0xFF, 0xFF, 0xFF, 0x41, 0xEF, 0xBE, 0xAD, 0xDE];
    let second = answer_challenge(&reply).unwrap();
    assert!(second.ends_with(&[0xEF, 0xBE, 0xAD, 0xDE]));
    assert_eq!(&second[..25], b"\xFF\xFF\xFF\xFFTSource Engine Query\x00");
    assert_eq!(second.len(), 29);
}

#[test]
fn short_challenge_reply_gives_no_request() {
    assert_eq!(answer_challenge(&[0xFF, 0xFF, 0xFF, 0xFF, 0x41, 1, 2, 3]), None);
    assert_eq!(answer_challenge(&[]), None);
}
