use noise_ix::{initiator, responder, Error, Transport};

fn pair() -> (Transport, Transport) {
    let mut b1 = [0u8; 64];
    let mut b2 = [0u8; 96];
    let mut p = [0u8; 0];
    let (n1, init) = initiator([4u8; 32], [5u8; 32], b"p").write_message(&[], &mut b1).unwrap();
    let (_, resp) = responder([6u8; 32], [7u8; 32], b"p").read_message(&b1[..n1], &mut p).unwrap();
    let (n2, r) = resp.write_message(&[], &mut b2).unwrap();
    let (_, i) = init.read_message(&b2[..n2], &mut p).unwrap();
    (i, r)
}

#[test]
fn round_trip_sixty_four_frames_each_way_interleaved() {
    let (mut a, mut b) = pair();
    let mut frame = [0u8; 64];
    let mut plain = [0u8; 48];
    for k in 0..64u8 {
        let msg: Vec<u8> = (0..(k % 48)).map(|x| x ^ k).collect();
        let n = a.write_message(&msg, &mut frame).unwrap();
        assert_eq!(n, msg.len() + 16);
        let m = b.read_message(&frame[..n], &mut plain).unwrap();
        assert_eq!(&plain[..m], &msg[..]);

        let back: Vec<u8> = msg.iter().rev().copied().collect();
        let n = b.write_message(&back, &mut frame).unwrap();
        let m = a.read_message(&frame[..n], &mut plain).unwrap();
        assert_eq!(&plain[..m], &back[..]);
    }
    assert_eq!((a.send_nonce(), a.recv_nonce()), (64, 64));
    assert_eq!((b.send_nonce(), b.recv_nonce()), (64, 64));
}

#[test]
fn writes_leave_the_other_direction_alone() {
    let (mut a, mut b) = pair();
    let mut frames = Vec::new();
    let mut buf = [0u8; 32];
    for k in 0..3u8 {
        let n = a.write_message(&[k; 4], &mut buf).unwrap();
        frames.push(buf[..n].to_vec());
    }
    assert_eq!((a.send_nonce(), a.recv_nonce()), (3, 0));
    let n = b.write_message(b"x", &mut buf).unwrap();
    let reply = buf[..n].to_vec();
    assert_eq!((b.send_nonce(), b.recv_nonce()), (1, 0));
    let mut out = [0u8; 16];
    for (k, f) in frames.iter().enumerate() {
        let m = b.read_message(f, &mut out).unwrap();
        assert_eq!(&out[..m], &[k as u8; 4]);
    }
    let m = a.read_message(&reply, &mut out).unwrap();
    assert_eq!(&out[..m], b"x");
    assert_eq!((a.send_nonce(), a.recv_nonce()), (3, 1));
    assert_eq!((b.send_nonce(), b.recv_nonce()), (1, 3));
}

#[test]
fn every_bit_flip_of_a_transport_frame_is_refused() {
    let (mut a, mut b) = pair();
    let mut frame = [0u8; 32];
    let n = a.write_message(b"hell no", &mut frame).unwrap();
    let mut out = [0u8; 16];
    for bit in 0..n * 8 {
        let mut bad = frame[..n].to_vec();
        bad[bit / 8] ^= 1 << (bit % 8);
        assert_eq!(b.read_message(&bad, &mut out).err(), Some(Error::Decrypt));
        assert_eq!(b.recv_nonce(), 0);
        assert_eq!(out, [0u8; 16]);
    }
    let m = b.read_message(&frame[..n], &mut out).unwrap();
    assert_eq!(&out[..m], b"hell no");
}

#[test]
fn replayed_or_dropped_frames_fail() {
    let (mut a, mut b) = pair();
    let mut f1 = [0u8; 20];
    let mut f2 = [0u8; 20];
    let n1 = a.write_message(b"one", &mut f1).unwrap();
    let n2 = a.write_message(b"two", &mut f2).unwrap();
    let mut out = [0u8; 8];
    assert_eq!(b.read_message(&f2[..n2], &mut out).err(), Some(Error::Decrypt));
    b.read_message(&f1[..n1], &mut out).unwrap();
    assert_eq!(b.read_message(&f1[..n1], &mut out).err(), Some(Error::Decrypt));
}

#[test]
fn transport_buffers_one_byte_short() {
    let (mut a, mut b) = pair();
    let mut short = [0u8; 22];
    assert_eq!(a.write_message(b"hell no", &mut short).err(), Some(Error::Input));
    assert_eq!(short, [0u8; 22]);
    assert_eq!(a.send_nonce(), 0);

    let mut frame = [0u8; 23];
    let n = a.write_message(b"hell no", &mut frame).unwrap();
    assert_eq!(n, 23);
    let mut out = [0u8; 6];
    assert_eq!(b.read_message(&frame, &mut out).err(), Some(Error::Input));
    assert_eq!(b.recv_nonce(), 0);
    assert_eq!(b.read_message(&frame[..15], &mut out).err(), Some(Error::Input));
    let mut out = [0u8; 7];
    assert_eq!(b.read_message(&frame, &mut out).unwrap(), 7);
    assert_eq!(&out, b"hell no");
}

#[test]
fn ciphertext_differs_from_plaintext_and_empty_frames_carry_a_tag() {
    let (mut a, mut b) = pair();
    let mut frame = [0u8; 40];
    let n = a.write_message(b"plain text here!", &mut frame).unwrap();
    assert_eq!(n, 32);
    assert_ne!(&frame[..16], b"plain text here!");
    let n = a.write_message(&[], &mut frame).unwrap();
    assert_eq!(n, 16);
    let empty_frame = frame[..16].to_vec();
    let mut out = [0u8; 16];
    assert_eq!(b.read_message(&empty_frame[..15], &mut out).err(), Some(Error::Input));
    let mut first = [0u8; 32];
    let mut a2 = pair().0;
    let n = a2.write_message(b"plain text here!", &mut first).unwrap();
    assert_eq!(b.read_message(&first[..n], &mut out).unwrap(), 16);
    assert_eq!(&out, b"plain text here!");
    assert_eq!(b.read_message(&empty_frame, &mut out).unwrap(), 0);
}

#[test]
fn split_halves_work_independently() {
    let (a, b) = pair();
    let (mut a_read, mut a_write) = a.split();
    let (mut b_read, mut b_write) = b.split();
    let mut frame = [0u8; 32];
    let mut out = [0u8; 16];
    let n = a_write.write_message(b"ping", &mut frame).unwrap();
    let m = b_read.read_message(&frame[..n], &mut out).unwrap();
    assert_eq!(&out[..m], b"ping");
    let n = b_write.write_message(b"pong", &mut frame).unwrap();
    let m = a_read.read_message(&frame[..n], &mut out).unwrap();
    assert_eq!(&out[..m], b"pong");
    assert_eq!((a_write.nonce(), a_read.nonce(), b_write.nonce(), b_read.nonce()), (1, 1, 1, 1));
}
