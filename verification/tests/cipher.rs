use cfb8::cipher::{AsyncStreamCipher, NewCipher};

use limbo::cipher::{Cfb8, InvalidLength};
use limbo::connection::{Connection, MAX_PACKET_LENGTH};
use limbo::packets::client::status::{ClientStatusPacket, StatusPing};
use limbo::packets::client::ClientPacket;
use limbo::packets::server::status::{ServerStatusPacket, StatusPong};
use limbo::packets::server::ServerPacket;
use limbo::packets::State;

fn secret() -> Vec<u8> {
    (0u8..16).map(|i| i.wrapping_mul(17).wrapping_add(3)).collect()
}

fn reference_encrypt(key: &[u8], data: &[u8]) -> Vec<u8> {
    let mut cipher = cfb8::Cfb8::<aes::Aes128>::new_from_slices(key, key).unwrap();
    let mut out = data.to_vec();
    cipher.encrypt(&mut out);
    out
}

#[test]
fn keys_and_initial_values_must_have_sixteen_bytes() {
    assert!(Cfb8::new(&[0; 16], &[0; 16]).is_ok());
    assert_eq!(Cfb8::new(&[0; 15], &[0; 16]).err(), Some(InvalidLength));
    assert_eq!(Cfb8::new(&[0; 16], &[0; 17]).err(), Some(InvalidLength));
    assert_eq!(Cfb8::new(&[], &[]).err(), Some(InvalidLength));
}

#[test]
fn encryption_changes_the_bytes() {
    let mut cipher = Cfb8::new(&secret(), &secret()).unwrap();
    let mut data = vec![0u8; 40];
    cipher.encrypt(&mut data);
    assert_ne!(data, vec![0u8; 40]);
    assert_eq!(data.len(), 40);
}

#[test]
fn encryption_agrees_with_the_reference_cipher() {
    let key = secret();
    let data: Vec<u8> = (0..100u32).map(|i| (i * 7 + 1) as u8).collect();
    let mut cipher = Cfb8::new(&key, &key).unwrap();
    let mut ours = data.clone();
    cipher.encrypt(&mut ours);
    assert_eq!(ours, reference_encrypt(&key, &data));

    let mut reference = cfb8::Cfb8::<aes::Aes128>::new_from_slices(&key, &key).unwrap();
    let mut back = ours.clone();
    reference.decrypt(&mut back);
    assert_eq!(back, data);
}

#[test]
fn a_zero_key_gives_the_known_first_byte() {
    let mut cipher = Cfb8::new(&[0; 16], &[0; 16]).unwrap();
    let mut data = vec![0u8];
    cipher.encrypt(&mut data);
    assert_eq!(data, vec![0x66]);
}

#[test]
fn decryption_undoes_encryption_wherever_the_stream_is_cut() {
    let key = secret();
    let data: Vec<u8> = (0..64u32).map(|i| (i * 31 + 5) as u8).collect();
    let mut sender = Cfb8::new(&key, &key).unwrap();
    let mut wire = data.clone();
    sender.encrypt(&mut wire);
    for cut in [0usize, 1, 15, 16, 17, 40, 64] {
        let mut receiver = Cfb8::new(&key, &key).unwrap();
        let mut first = wire[..cut].to_vec();
        let mut second = wire[cut..].to_vec();
        receiver.decrypt(&mut first);
        receiver.decrypt(&mut second);
        first.extend_from_slice(&second);
        assert_eq!(first, data);
    }
}

#[test]
fn encryption_in_pieces_equals_encryption_at_once() {
    let key = secret();
    let data: Vec<u8> = (0..50u8).collect();
    let mut whole = Cfb8::new(&key, &key).unwrap();
    let mut at_once = data.clone();
    whole.encrypt(&mut at_once);
    let mut pieces = Cfb8::new(&key, &key).unwrap();
    let mut out = Vec::new();
    for chunk in data.chunks(7) {
        let mut part = chunk.to_vec();
        pieces.encrypt(&mut part);
        out.extend_from_slice(&part);
    }
    assert_eq!(out, at_once);
}

#[test]
fn a_connection_encrypts_what_it_sends_and_decrypts_what_it_receives() {
    let key = secret();
    let mut server = Connection::new(MAX_PACKET_LENGTH);
    assert_eq!(server.update_encryption(&key[..15]), Err(InvalidLength));
    let pong = ServerPacket::Status(ServerStatusPacket::Pong(StatusPong { payload: 42 }));
    let plain = server.write_packet(&pong).unwrap();
    assert_eq!(plain, vec![0x09, 0x01, 0, 0, 0, 0, 0, 0, 0, 0x2a]);
    assert_eq!(server.update_encryption(&key), Ok(()));
    let first = server.write_packet(&pong).unwrap();
    let second = server.write_packet(&pong).unwrap();
    assert_ne!(first, plain);
    assert_ne!(first, second);
    let mut both = plain.clone();
    both.extend_from_slice(&plain);
    let mut wire = first.clone();
    wire.extend_from_slice(&second);
    assert_eq!(wire, reference_encrypt(&key, &both));

    server.set_state(State::Status);
    let ping = [0x09u8, 0x01, 0, 0, 0, 0, 0, 0, 0, 0x2a];
    let mut stream = ping.to_vec();
    stream.extend_from_slice(&ping);
    let encrypted = reference_encrypt(&key, &stream);
    server.receive(&encrypted[..3]);
    assert_eq!(server.parse_packet(), Ok(None));
    server.receive(&encrypted[3..13]);
    let expected = ClientPacket::Status(ClientStatusPacket::Ping(StatusPing { payload: 42 }));
    assert_eq!(server.parse_packet(), Ok(Some(expected.clone())));
    server.receive(&encrypted[13..]);
    assert_eq!(server.parse_packet(), Ok(Some(expected)));
    assert_eq!(server.parse_packet(), Ok(None));
}
