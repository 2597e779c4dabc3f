use potato_stream::stream::{socket_from_peer_key, IPV6_HEADER, PEER_SOCKET_PORT};

fn sample_key() -> Vec<u8> {
    (0u8..33).map(|b| b.wrapping_mul(7).wrapping_add(3)).collect()
}

#[test]
fn socket_from_peer_key_works() {
    let pp_key = sample_key();
    let socket_addr = socket_from_peer_key(&pp_key);
    let address_octets = socket_addr.ip_bits.to_be_bytes();
    assert_eq!(address_octets[..3], [0xd1, 0x77, 0x00]);
    assert_eq!(&address_octets[6..], &pp_key[pp_key.len() - 10..]);
}

#[test]
fn peer_address_has_fixed_header_and_port() {
    let key = sample_key();
    let sock = socket_from_peer_key(&key);
    assert_eq!(sock.port, 0xd177);
    assert_eq!(sock.port, PEER_SOCKET_PORT);
    assert_eq!(sock.ip_bits >> 108, 0xd1770);
    assert_eq!(IPV6_HEADER, 0xd1770u128 << 108);
    assert_eq!(&sock.ip_bits.to_be_bytes()[..6], &[0xd1, 0x77, 0, 0, 0, 0]);
}

#[test]
fn peer_address_of_a_ten_byte_key() {
    let key: Vec<u8> = vec![1, 2, 3, 4, 5, 6, 7, 8, 9, 10];
    let sock = socket_from_peer_key(&key);
    assert_eq!(sock.ip_bits, 0xd177_0000_0000_0102_0304_0506_0708_090a);
    assert_eq!(sock.port, 53623);
}

#[test]
fn peer_addresses_differ_when_key_tails_differ() {
    let a = sample_key();
    let mut b = sample_key();
    let last = b.len() - 1;
    b[last] ^= 0xff;
    assert_ne!(socket_from_peer_key(&a), socket_from_peer_key(&b));
    // Only the last ten bytes count.
    let mut c = sample_key();
    c[0] ^= 0xff;
    assert_eq!(socket_from_peer_key(&a), socket_from_peer_key(&c));
}
