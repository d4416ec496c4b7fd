use snxcore::route_msg::{netmask_prefix_len, reply_gateway, roundup, route_is_default, route_message_payload};

fn lcg(seed: &mut u64) -> u64 {
    *seed = seed.wrapping_mul(6364136223846793005).wrapping_add(1442695040888963407);
    *seed
}

fn sockaddr_in(a: [u8; 4]) -> Vec<u8> {
    let mut sa = vec![16u8, 2, 0, 0];
    sa.extend_from_slice(&a);
    sa.extend_from_slice(&[0; 8]);
    sa
}

fn push_sa(body: &mut Vec<u8>, sa: &[u8]) {
    let start = body.len();
    body.extend_from_slice(sa);
    body.resize(start + roundup(sa.len()), 0);
}

#[test]
fn roundup_pads_to_word() {
    assert_eq!(roundup(0), 4);
    for len in 1..=256usize {
        let r = roundup(len);
        assert!(r >= len && r % 4 == 0 && r < len + 4, "roundup({len}) = {r}");
    }
}

#[test]
fn netmask_prefix_len_known_and_truncated() {
    let mut sa = vec![8u8, 2, 0, 0, 0xff, 0xff, 0xff, 0x00];
    assert_eq!(netmask_prefix_len(&sa), 24);
    sa[4..8].copy_from_slice(&[0xff; 4]);
    assert_eq!(netmask_prefix_len(&sa), 32);
    assert_eq!(netmask_prefix_len(&[]), 0);
    assert_eq!(netmask_prefix_len(&[0, 2, 0]), 0);
}

#[test]
fn netmask_prefix_len_never_panics() {
    let mut seed = 0xdead_beef_0000_0001;
    for _ in 0..5000 {
        let len = (lcg(&mut seed) % 16) as usize;
        let buf: Vec<u8> = (0..len).map(|_| (lcg(&mut seed) >> 33) as u8).collect();
        assert!(netmask_prefix_len(&buf) <= 32);
    }
}

#[test]
fn route_is_default_detects_zero_dst_and_mask() {
    let gw = sockaddr_in([192, 168, 1, 1]);
    let mask = sockaddr_in([0, 0, 0, 0]);
    let addrs = (1 << 0) | (1 << 1) | (1 << 2);

    let dst = sockaddr_in([0, 0, 0, 0]);
    let mut body = Vec::new();
    push_sa(&mut body, &dst);
    push_sa(&mut body, &gw);
    push_sa(&mut body, &mask);
    assert!(route_is_default(&body, addrs));

    let dst = sockaddr_in([10, 0, 0, 0]);
    let mut body = Vec::new();
    push_sa(&mut body, &dst);
    push_sa(&mut body, &gw);
    push_sa(&mut body, &mask);
    assert!(!route_is_default(&body, addrs));
}

#[test]
fn route_is_default_never_panics() {
    let mut seed = 0xfeed_face_0000_0003;
    for _ in 0..5000 {
        let len = (lcg(&mut seed) % 200) as usize;
        let body: Vec<u8> = (0..len).map(|_| (lcg(&mut seed) >> 33) as u8).collect();
        let addrs = (lcg(&mut seed) & 0xff) as i32;
        let _ = route_is_default(&body, addrs);
    }
}

#[test]
fn reply_gateway_reads_the_gateway_slot() {
    let dst = sockaddr_in([0, 0, 0, 0]);
    let gw = sockaddr_in([192, 168, 1, 1]);
    let mut body = Vec::new();
    push_sa(&mut body, &dst);
    push_sa(&mut body, &gw);
    assert_eq!(reply_gateway(&body, 0b11), Some(gw.clone()));
    assert_eq!(reply_gateway(&body, 0b01), None);
}

#[test]
fn route_message_payload_pads_each_address() {
    let dst = sockaddr_in([10, 1, 2, 0]);
    let mask = vec![8u8, 2, 0, 0, 255, 255, 255];
    let (addrs, payload) = route_message_payload(&[(1, &dst[..]), (4, &mask[..])]);
    assert_eq!(addrs, 5);
    assert_eq!(payload.len(), 16 + 8);
    assert_eq!(&payload[..16], &dst[..]);
    assert_eq!(&payload[16..23], &mask[..]);
    assert_eq!(payload[23], 0);
}
