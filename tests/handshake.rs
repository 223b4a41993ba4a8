use noise_ix::{initiator, pub_key, responder, x25519, Error, Transport};

const E: [u8; 32] = [0u8; 32];
const S: [u8; 32] = [1u8; 32];
const RE: [u8; 32] = [2u8; 32];
const RS: [u8; 32] = [3u8; 32];

fn flight1(payload: &[u8]) -> (noise_ix::Initiator2, Vec<u8>) {
    let mut buf = vec![0u8; 64 + payload.len()];
    let (len, init) = initiator(E, S, &[]).write_message(payload, &mut buf).unwrap();
    buf.truncate(len);
    (init, buf)
}

fn flight2(msg1: &[u8], payload: &[u8]) -> (Transport, Vec<u8>) {
    let mut p = vec![0u8; msg1.len()];
    let (_, resp) = responder(RE, RS, &[]).read_message(msg1, &mut p).unwrap();
    let mut buf = vec![0u8; 96 + payload.len()];
    let (len, t) = resp.write_message(payload, &mut buf).unwrap();
    buf.truncate(len);
    (t, buf)
}

fn pair() -> (Transport, Transport) {
    let (init, m1) = flight1(b"");
    let (r_trans, m2) = flight2(&m1, b"");
    let mut p = [0u8; 8];
    let (_, i_trans) = init.read_message(&m2, &mut p).unwrap();
    (i_trans, r_trans)
}

#[test]
fn s1_empty_payloads_then_two_frames() {
    let mut buf1 = [0u8; 100];
    let mut buf2 = [0u8; 100];
    let (len1, init) = initiator(E, S, &[]).write_message(&[], &mut buf1).unwrap();
    assert_eq!(len1, 64);
    let (p1, resp) = responder(RE, RS, &[]).read_message(&buf1[..len1], &mut buf2).unwrap();
    assert_eq!(p1, 0);
    let (len2, mut r_trans) = resp.write_message(&[], &mut buf2).unwrap();
    assert_eq!(len2, 96);
    let (p2, mut i_trans) = init.read_message(&buf2[..len2], &mut buf1).unwrap();
    assert_eq!(p2, 0);

    assert_eq!(r_trans.recv_nonce(), 0);
    for round in 1..=2u64 {
        let n = i_trans.write_message(b"hell no", &mut buf1).unwrap();
        assert_eq!(n, 23);
        let m = r_trans.read_message(&buf1[..n], &mut buf2).unwrap();
        assert_eq!(&buf2[..m], b"hell no");
        assert_eq!(r_trans.recv_nonce(), round);
    }
}

#[test]
fn s2_flight_two_payload_and_remote_key() {
    let (init, m1) = flight1(b"");
    let (_, m2) = flight2(&m1, b"hi");
    assert_eq!(m2.len(), 98);
    let mut p = [0u8; 2];
    let (n, i_trans) = init.read_message(&m2, &mut p).unwrap();
    assert_eq!(n, 2);
    assert_eq!(&p, b"hi");
    assert_eq!(i_trans.remote_static(), pub_key(RS));
}

#[test]
fn s3_flipped_last_byte_of_flight_two() {
    let (init, m1) = flight1(b"");
    let (_, mut m2) = flight2(&m1, b"");
    let last = m2.len() - 1;
    m2[last] ^= 1;
    let mut p = [0u8; 8];
    assert_eq!(init.read_message(&m2, &mut p).err(), Some(Error::Decrypt));
}

#[test]
fn s4_first_flight_buffer_too_small() {
    let mut out = [0u8; 32];
    let r = initiator(E, S, &[]).write_message(&[], &mut out);
    assert_eq!(r.err(), Some(Error::Input));
    assert_eq!(out, [0u8; 32]);
}

#[test]
fn s5_thousand_frames_in_order() {
    let (mut i_trans, mut r_trans) = pair();
    let mut frame = [0u8; 80];
    let mut plain = [0u8; 64];
    for k in 0..1000u32 {
        let payload = [(k % 251) as u8; 64];
        let n = i_trans.write_message(&payload, &mut frame).unwrap();
        assert_eq!(n, 80);
        let m = r_trans.read_message(&frame[..n], &mut plain).unwrap();
        assert_eq!(m, 64);
        assert_eq!(plain, payload);
    }
    assert_eq!(i_trans.send_nonce(), 1000);
    assert_eq!(r_trans.recv_nonce(), 1000);
}

#[test]
fn s6_zero_dh_output_aborts_without_output() {
    // An all-zero ephemeral key is the identity point: every product with it is zero.
    let mut msg1 = [0u8; 64];
    msg1[32..].copy_from_slice(&pub_key(S));
    let mut p = [0u8; 0];
    let (_, resp) = responder(RE, RS, &[]).read_message(&msg1, &mut p).unwrap();
    let mut out = [7u8; 96];
    let r = resp.write_message(&[], &mut out);
    assert_eq!(r.err(), Some(Error::Dh));
    assert_eq!(out, [7u8; 96]);
}

#[test]
fn x25519_refuses_zero_output_and_agrees_otherwise() {
    assert_eq!(x25519(E, [0u8; 32]).err(), Some(Error::Dh));
    let ab = x25519(S, pub_key(RS)).unwrap();
    let ba = x25519(RS, pub_key(S)).unwrap();
    assert_eq!(ab, ba);
    assert_ne!(ab, [0u8; 32]);
}

#[test]
fn pub_key_matches_x25519_base_point_multiplication() {
    let expected = x25519_dalek::x25519(S, x25519_dalek::X25519_BASEPOINT_BYTES);
    assert_eq!(pub_key(S), expected);
    assert_ne!(pub_key(S), S);
}

#[test]
fn flight_one_layout() {
    let (_, m1) = flight1(b"abc");
    assert_eq!(m1.len(), 67);
    assert_eq!(&m1[..32], &pub_key(E));
    assert_eq!(&m1[32..64], &pub_key(S));
    assert_eq!(&m1[64..], b"abc");
}

#[test]
fn flight_two_hides_static_key_and_payload() {
    let (_, m1) = flight1(b"");
    let (_, m2) = flight2(&m1, b"secret");
    assert_eq!(m2.len(), 96 + 6);
    assert_eq!(&m2[..32], &pub_key(RE));
    assert_ne!(&m2[32..64], &pub_key(RS));
    assert_ne!(&m2[80..86], b"secret");
}

#[test]
fn remote_keys_exposed_on_both_sides() {
    let (init, m1) = flight1(b"");
    let mut p = [0u8; 0];
    let (_, resp) = responder(RE, RS, &[]).read_message(&m1, &mut p).unwrap();
    assert_eq!(resp.remote_key(), pub_key(S));
    let mut m2 = [0u8; 96];
    let (n, r_trans) = resp.write_message(&[], &mut m2).unwrap();
    let (_, i_trans) = init.read_message(&m2[..n], &mut p).unwrap();
    assert_eq!(i_trans.remote_static(), pub_key(RS));
    assert_eq!(r_trans.remote_static(), pub_key(S));
}

#[test]
fn prologue_mismatch_fails_flight_two() {
    let mut m1 = [0u8; 64];
    let (n1, init) = initiator(E, S, b"one").write_message(&[], &mut m1).unwrap();
    let mut p = [0u8; 0];
    let (_, resp) = responder(RE, RS, b"two").read_message(&m1[..n1], &mut p).unwrap();
    let mut m2 = [0u8; 96];
    let (n2, _) = resp.write_message(&[], &mut m2).unwrap();
    assert_eq!(init.read_message(&m2[..n2], &mut p).err(), Some(Error::Decrypt));
}

#[test]
fn flight_two_every_bit_flip_is_refused() {
    let (_, m1) = flight1(b"");
    let (_, m2) = flight2(&m1, b"xy");
    for bit in 0..m2.len() * 8 {
        let (init, _) = flight1(b"");
        let mut bad = m2.clone();
        bad[bit / 8] ^= 1 << (bit % 8);
        let mut p = [0u8; 2];
        let r = init.read_message(&bad, &mut p);
        assert_eq!(r.err(), Some(Error::Decrypt), "bit {}", bit);
        assert_eq!(p, [0u8; 2]);
    }
}

#[test]
fn overheads() {
    assert_eq!(noise_ix::Initiator1::overhead(), 64);
    assert_eq!(noise_ix::Responder1::overhead(), 64);
    assert_eq!(noise_ix::Responder2::overhead(), 96);
    assert_eq!(noise_ix::Initiator2::overhead(), 96);
}

#[test]
fn handshake_buffers_one_byte_short() {
    let mut out = [0u8; 66];
    assert_eq!(initiator(E, S, &[]).write_message(b"abc", &mut out).err(), Some(Error::Input));

    let (_, m1) = flight1(b"abc");
    let mut p = [0u8; 2];
    assert_eq!(responder(RE, RS, &[]).read_message(&m1, &mut p).err(), Some(Error::Input));
    assert_eq!(responder(RE, RS, &[]).read_message(&m1[..63], &mut p).err(), Some(Error::Input));

    let mut p3 = [0u8; 3];
    let (_, resp) = responder(RE, RS, &[]).read_message(&m1, &mut p3).unwrap();
    let mut out2 = [0u8; 98];
    assert_eq!(resp.write_message(b"abc", &mut out2).err(), Some(Error::Input));
    assert_eq!(out2, [0u8; 98]);

    let (init, m1) = flight1(b"");
    let (_, m2) = flight2(&m1, b"abc");
    let mut p2 = [0u8; 2];
    assert_eq!(init.read_message(&m2, &mut p2).err(), Some(Error::Input));
    let (init, _) = flight1(b"");
    assert_eq!(init.read_message(&m2[..95], &mut p3).err(), Some(Error::Input));
}
