use discord_voice::rtp::{
    build_discovery_request, build_header, build_nonce, build_voice_packet, join_packet,
    open_voice_packet, read_discovery_answer, strip_extension, PacketError, MAX_PAYLOAD,
};
use xsalsa20poly1305::aead::generic_array::GenericArray;
use xsalsa20poly1305::aead::Aead;
use xsalsa20poly1305::{KeyInit, XSalsa20Poly1305};

const KEY: [u8; 32] = [3; 32];

fn received(packet: &[u8]) -> Vec<u8> {
    let mut buffer = vec![0xEE; 1024];
    buffer[..packet.len()].copy_from_slice(packet);
    buffer
}

fn sealed(header: &[u8], content: &[u8]) -> Vec<u8> {
    let mut nonce = [0u8; 24];
    nonce[..12].copy_from_slice(header);
    let cipher = XSalsa20Poly1305::new(GenericArray::from_slice(&KEY));
    let mut packet = header.to_vec();
    packet.extend(cipher.encrypt(GenericArray::from_slice(&nonce), content).unwrap());
    packet
}

#[test]
fn header_has_its_fields() {
    assert_eq!(
        build_header(0x0102, 0x03040506, 0x0708090A),
        [0x80, 0x78, 1, 2, 3, 4, 5, 6, 7, 8, 9, 10]
    );
}

#[test]
fn nonce_is_the_header_and_zeros() {
    let mut expected = [0u8; 24];
    expected[..12].copy_from_slice(&[1, 2, 3, 4, 5, 6, 7, 8, 9, 10, 11, 12]);
    assert_eq!(build_nonce(&[1, 2, 3, 4, 5, 6, 7, 8, 9, 10, 11, 12, 13]), expected);
}

#[test]
fn packet_is_sealed_behind_its_header() {
    let packet = build_voice_packet(&KEY, 7, 960, 0xAABBCCDD, b"opus data");
    assert_eq!(packet, sealed(&build_header(7, 960, 0xAABBCCDD), b"opus data"));
    assert_eq!(packet.len(), 12 + 9 + 16);
}

#[test]
fn longest_packet_fills_the_buffer() {
    let packet = build_voice_packet(&KEY, 0, 0, 1, &[5; MAX_PAYLOAD]);
    assert_eq!(packet.len(), 1024);
}

#[test]
fn packet_is_opened_again() {
    let packet = build_voice_packet(&KEY, 7, 960, 1, b"opus data");
    assert_eq!(
        open_voice_packet(&KEY, &received(&packet), packet.len()),
        Ok(b"opus data".to_vec())
    );
}

#[test]
fn forged_packets_are_refused() {
    let packet = build_voice_packet(&KEY, 7, 960, 1, b"opus data");
    for i in [2, 12, 30] {
        let mut changed = packet.clone();
        changed[i] ^= 1;
        assert_eq!(
            open_voice_packet(&KEY, &received(&changed), changed.len()),
            Err(PacketError::Forged)
        );
    }
    assert_eq!(
        open_voice_packet(&[4; 32], &received(&packet), packet.len()),
        Err(PacketError::Forged)
    );
    assert_eq!(open_voice_packet(&KEY, &received(&packet), 20), Err(PacketError::Forged));
}

#[test]
fn truncated_packets_are_refused() {
    let packet = build_voice_packet(&KEY, 7, 960, 1, b"opus data");
    assert_eq!(open_voice_packet(&KEY, &received(&packet), 11), Err(PacketError::Truncated));
    assert_eq!(open_voice_packet(&KEY, &received(&packet), 12), Err(PacketError::Forged));
}

#[test]
fn extension_is_skipped() {
    let mut header = build_header(1, 2, 3);
    header[0] = 0x90;
    let packet = sealed(&header, b"12345678audio");
    assert_eq!(
        open_voice_packet(&KEY, &received(&packet), packet.len()),
        Ok(b"audio".to_vec())
    );
    let packet = sealed(&header, b"1234567");
    assert_eq!(
        open_voice_packet(&KEY, &received(&packet), packet.len()),
        Err(PacketError::MissingExtension)
    );
}

#[test]
fn extension_is_stripped_if_announced() {
    assert_eq!(strip_extension(0x80, b"12345678audio"), Some(b"12345678audio".to_vec()));
    assert_eq!(strip_extension(0x10, b"12345678audio"), Some(b"audio".to_vec()));
    assert_eq!(strip_extension(0xFF, b"12345678"), Some(vec![]));
    assert_eq!(strip_extension(0x10, b"1234567"), None);
    assert_eq!(strip_extension(0x00, b""), Some(vec![]));
}

#[test]
fn parts_are_joined() {
    assert_eq!(join_packet(&[1; 12], &[2, 3])[10..], [1, 1, 2, 3]);
}

#[test]
fn discovery_request_has_its_fields() {
    let packet = build_discovery_request(0x01020304, 0xABCD);
    assert_eq!(packet[..8], [0, 1, 0, 70, 1, 2, 3, 4]);
    assert_eq!(packet[8..72], [0; 64]);
    assert_eq!(packet[72..], [0xAB, 0xCD]);
}

#[test]
fn discovery_answer_is_read() {
    let mut buffer = vec![0u8; 74];
    buffer[8..20].copy_from_slice(b"203.0.113.42");
    buffer[72] = 0xC3;
    buffer[73] = 0x50;
    assert_eq!(read_discovery_answer(&buffer), Some(("203.0.113.42".to_owned(), 50000)));
}

#[test]
fn zeros_in_an_address_are_left_out() {
    let mut buffer = vec![0u8; 80];
    buffer[10] = b'a';
    buffer[71] = b'b';
    assert_eq!(read_discovery_answer(&buffer), Some(("ab".to_owned(), 0)));
    buffer[40] = 0xFF;
    assert_eq!(read_discovery_answer(&buffer), None);
}
