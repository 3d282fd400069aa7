use netwatch::codec::{parse_frame, HeaderKey, IpAddress};
use netwatch::render::{key_string, mac_string};

fn frame(dst: [u8; 6], src: [u8; 6], ethertype: u16, payload: &[u8]) -> Vec<u8> {
    let mut f = Vec::new();
    f.extend_from_slice(&dst);
    f.extend_from_slice(&src);
    f.push((ethertype >> 8) as u8);
    f.push((ethertype & 0xff) as u8);
    f.extend_from_slice(payload);
    f
}

fn ipv4_payload(proto: u8, src: [u8; 4], dst: [u8; 4]) -> Vec<u8> {
    let mut p = vec![0u8; 20];
    p[0] = 0x45;
    p[9] = proto;
    p[12..16].copy_from_slice(&src);
    p[16..20].copy_from_slice(&dst);
    p
}

#[test]
fn short_frame_has_no_key() {
    assert!(parse_frame(&[]).is_none());
    assert!(parse_frame(&[0u8; 13]).is_none());
}

#[test]
fn minimal_frame_has_key() {
    assert!(parse_frame(&[0u8; 14]).is_some());
}

#[test]
fn arp_frame_keys_without_network() {
    let f = frame(
        [0xff; 6],
        [0x00, 0x01, 0x02, 0x03, 0x04, 0x05],
        0x0806,
        &[0u8; 28],
    );
    let k = parse_frame(&f).unwrap();
    assert_eq!(k.ether_type, 0x0806);
    assert_eq!(k.source_mac, 0x0000_0102_0304_05);
    assert_eq!(k.destination_mac, 0xffff_ffff_ffff);
    assert!(k.network.is_none());
}

#[test]
fn ipv4_frame_keys_with_network() {
    let f = frame(
        [0xaa; 6],
        [0xbb; 6],
        0x0800,
        &ipv4_payload(6, [1, 2, 3, 4], [5, 6, 7, 8]),
    );
    let k = parse_frame(&f).unwrap();
    let nh = k.network.expect("network header expected");
    assert_eq!(nh.next_protocol, 6);
    assert_eq!(nh.source, IpAddress::V4(0x01020304));
    assert_eq!(nh.destination, IpAddress::V4(0x05060708));
}

#[test]
fn truncated_ipv4_frame_has_no_key() {
    let f = frame([0xaa; 6], [0xbb; 6], 0x0800, &[0u8; 19]);
    assert!(parse_frame(&f).is_none());
}

#[test]
fn ipv6_frame_keys_with_network() {
    let mut p = vec![0u8; 40];
    p[0] = 0x60;
    p[6] = 17; // UDP
    p[8..24].copy_from_slice(&[0, 0, 0, 0, 0, 0, 0, 0, 0, 0, 0, 0, 0, 0, 0, 1]);
    p[24..40].copy_from_slice(&[0xfe, 0x80, 0, 0, 0, 0, 0, 0, 0, 0, 0, 0, 0, 0, 0, 2]);
    let f = frame([0x11; 6], [0x22; 6], 0x86DD, &p);
    let k = parse_frame(&f).unwrap();
    let nh = k.network.expect("network header expected");
    assert_eq!(nh.next_protocol, 17);
    assert_eq!(nh.source, IpAddress::V6(1));
    assert_eq!(
        nh.destination,
        IpAddress::V6(0xfe80_0000_0000_0000_0000_0000_0000_0002)
    );
}

#[test]
fn truncated_ipv6_frame_has_no_key() {
    let f = frame([0x11; 6], [0x22; 6], 0x86DD, &[0u8; 39]);
    assert!(parse_frame(&f).is_none());
}

#[test]
fn key_string_renders_non_ip_key() {
    let f = frame(
        [0xff; 6],
        [0x00, 0x01, 0x02, 0x03, 0x04, 0x05],
        0x0806,
        &[0u8; 28],
    );
    let k = parse_frame(&f).unwrap();
    assert_eq!(
        key_string(&k),
        "{\"protocol\":2054,\"source\":\"00:01:02:03:04:05\",\
         \"destination\":\"ff:ff:ff:ff:ff:ff\",\"ip_header\":null}"
    );
}

#[test]
fn key_string_renders_ipv4_key() {
    let f = frame(
        [0x00, 0x00, 0x00, 0x00, 0x00, 0x01],
        [0x00, 0x00, 0x00, 0x00, 0x00, 0x02],
        0x0800,
        &ipv4_payload(6, [192, 168, 0, 1], [10, 0, 0, 255]),
    );
    let k = parse_frame(&f).unwrap();
    assert_eq!(
        key_string(&k),
        "{\"protocol\":2048,\"source\":\"00:00:00:00:00:02\",\
         \"destination\":\"00:00:00:00:00:01\",\"ip_header\":\
         {\"source\":\"192.168.0.1\",\"destination\":\"10.0.0.255\",\"protocol\":6}}"
    );
}

#[test]
fn key_string_renders_ipv6_key() {
    let mut p = vec![0u8; 40];
    p[6] = 58;
    p[23] = 1;
    p[24] = 0xfe;
    p[25] = 0x80;
    p[39] = 2;
    let f = frame([0x11; 6], [0x22; 6], 0x86DD, &p);
    let k = parse_frame(&f).unwrap();
    let s = key_string(&k);
    assert!(s.contains("\"source\":\"0000:0000:0000:0000:0000:0000:0000:0001\""));
    assert!(s.contains("\"destination\":\"fe80:0000:0000:0000:0000:0000:0000:0002\""));
    assert!(s.contains("\"protocol\":58}"));
}

#[test]
fn mac_string_renders_hex_pairs() {
    assert_eq!(mac_string(0x0000_0102_0a0b_0c), "00:01:02:0a:0b:0c");
    assert_eq!(mac_string(0xffff_ffff_ffff), "ff:ff:ff:ff:ff:ff");
}

#[test]
fn distinct_keys_render_to_distinct_tokens() {
    let a = parse_frame(&frame([0x01; 6], [0x02; 6], 0x0806, &[0u8; 28])).unwrap();
    let b = parse_frame(&frame([0x01; 6], [0x03; 6], 0x0806, &[0u8; 28])).unwrap();
    assert_ne!(key_string(&a), key_string(&b));
}

#[test]
fn same_traffic_class_gives_equal_keys() {
    let payload = ipv4_payload(17, [1, 1, 1, 1], [2, 2, 2, 2]);
    let a: HeaderKey = parse_frame(&frame([0x01; 6], [0x02; 6], 0x0800, &payload)).unwrap();
    let b: HeaderKey = parse_frame(&frame([0x01; 6], [0x02; 6], 0x0800, &payload)).unwrap();
    assert_eq!(a, b);
}
