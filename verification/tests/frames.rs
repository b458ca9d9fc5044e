use std::io::Read;

use limbo::connection::{Connection, MAX_PACKET_LENGTH};
use limbo::error::{FieldReadError, ReadError, ReceiveError, SendError};
use limbo::frame::{
    decode_frame, decode_inflated, decode_payload, find_frame, stage_compressed_packet_into,
    stage_deflated_into, stage_packet_into, stage_with_data_length,
};
use limbo::io::RawBytes;
use limbo::packets::client::handshake::{ClientHandshakePacket, Handshake, NextState};
use limbo::packets::client::play::{ClientPlayPacket, PluginMessage};
use limbo::packets::client::status::{ClientStatusPacket, StatusPing, StatusRequest};
use limbo::packets::client::ClientPacket;
use limbo::packets::server::play::ServerPlayPacket;
use limbo::packets::server::status::{ServerStatusPacket, StatusPong};
use limbo::packets::server::ServerPacket;
use limbo::packets::State;
use limbo::varint::VarInt;

fn inflate(data: &[u8]) -> Vec<u8> {
    let mut out = Vec::new();
    flate2::read::ZlibDecoder::new(data).read_to_end(&mut out).unwrap();
    out
}

fn handshake_frame() -> Vec<u8> {
    vec![
        0x10, 0x00, 0xf5, 0x05, 0x09, 0x6c, 0x6f, 0x63, 0x61, 0x6c, 0x68, 0x6f, 0x73, 0x74, 0x63,
        0xdd, 0x01,
    ]
}

fn handshake() -> ClientPacket {
    ClientPacket::Handshake(ClientHandshakePacket::Handshake(Handshake {
        protocol_version: VarInt(757),
        server_address: "localhost".to_string(),
        server_port: 25565,
        next_state: NextState::Status,
    }))
}

#[test]
fn a_frame_is_its_length_and_its_payload() {
    let mut staged = vec![0xee];
    assert_eq!(stage_packet_into(&mut staged, &[1, 2, 3, 4]), Ok(()));
    assert_eq!(staged, vec![0xee, 4, 1, 2, 3, 4]);
    let payload = vec![7u8; 300];
    let mut staged = Vec::new();
    assert_eq!(stage_packet_into(&mut staged, &payload), Ok(()));
    assert_eq!(&staged[..2], &[0xac, 0x02]);
    assert_eq!(&staged[2..], &payload[..]);
}

#[test]
fn a_staged_frame_is_found_again() {
    let payload = vec![0x01u8, 0, 0, 0, 0, 0, 0, 0, 0x2a];
    let mut staged = Vec::new();
    assert_eq!(stage_packet_into(&mut staged, &payload), Ok(()));
    staged.extend_from_slice(&[0xaa, 0xbb]);
    assert_eq!(find_frame(&staged, 100), Ok(Some((1, 9))));
    assert_eq!(&staged[1..10], &payload[..]);
}

#[test]
fn an_incomplete_frame_needs_more() {
    let empty: [u8; 0] = [];
    assert_eq!(find_frame(&empty, 100), Ok(None));
    assert_eq!(find_frame(&[0x80], 100), Ok(None));
    assert_eq!(find_frame(&[0x03, 1, 2], 100), Ok(None));
    assert_eq!(find_frame(&[0x03, 1, 2, 3], 100), Ok(Some((1, 3))));
    assert_eq!(find_frame(&[0x00], 100), Ok(Some((1, 0))));
}

#[test]
fn a_length_that_no_frame_may_have_is_refused() {
    assert_eq!(
        find_frame(&[0x80, 0x80, 0x80, 0x80, 0x80], 100),
        Err(ReceiveError::PacketLength(FieldReadError::VariableTooLarge))
    );
    assert_eq!(find_frame(&[0x65], 100), Err(ReceiveError::OversizedPacket(101)));
    assert_eq!(find_frame(&[0x64], 100), Ok(None));
    assert_eq!(
        find_frame(&[0xff, 0xff, 0xff, 0xff, 0x0f], 100),
        Err(ReceiveError::OversizedPacket(-1))
    );
}

#[test]
fn short_data_goes_out_as_it_is_behind_a_zero() {
    let body = [0x01u8, 2, 3, 4];
    let mut staged = Vec::new();
    assert_eq!(stage_compressed_packet_into(&mut staged, &body, 16), Ok(()));
    assert_eq!(staged, vec![5, 0, 1, 2, 3, 4]);
    let mut staged = Vec::new();
    assert_eq!(stage_compressed_packet_into(&mut staged, &[9; 15], 16), Ok(()));
    assert_eq!(staged[0], 16);
    assert_eq!(staged[1], 0);
    assert_eq!(&staged[2..], &[9; 15]);
}

#[test]
fn long_data_goes_out_deflated_behind_its_length() {
    let body = [b'A'; 64];
    let mut staged = Vec::new();
    assert_eq!(stage_compressed_packet_into(&mut staged, &body, 16), Ok(()));
    assert_eq!(staged[0] as usize, staged.len() - 1);
    assert_eq!(staged[1], 64);
    assert_ne!(&staged[2..], &body[..]);
    let inflated = inflate(&staged[2..]);
    assert_eq!(inflated.len(), 64);
    assert_eq!(inflated, body.to_vec());
    let mut at_threshold = Vec::new();
    assert_eq!(stage_compressed_packet_into(&mut at_threshold, &[b'A'; 16], 16), Ok(()));
    assert_eq!(at_threshold[1], 16);
    assert_eq!(inflate(&at_threshold[2..]), vec![b'A'; 16]);
}

#[test]
fn staging_with_a_data_length_frames_both() {
    let mut staged = Vec::new();
    assert_eq!(stage_with_data_length(&mut staged, 300, &[1, 2]), Ok(()));
    assert_eq!(staged, vec![4, 0xac, 0x02, 1, 2]);
    let mut staged = Vec::new();
    assert_eq!(stage_deflated_into(&mut staged, 5, Some(vec![9, 9])), Ok(()));
    assert_eq!(staged, vec![3, 5, 9, 9]);
    let mut staged = vec![1];
    assert_eq!(stage_deflated_into(&mut staged, 5, None), Err(SendError::Compression));
    assert_eq!(staged, vec![1]);
}

#[test]
fn payloads_decode_with_the_table_of_the_phase() {
    let frame = handshake_frame();
    assert_eq!(decode_payload(State::Handshake, &frame[1..]), Ok(handshake()));
    assert_eq!(decode_frame(State::Handshake, &frame[1..], false), Ok(handshake()));
    assert_eq!(
        decode_payload(State::Status, &[0x05]),
        Err(ReceiveError::Decode(ReadError::InvalidPacketId(5)))
    );
}

#[test]
fn compressed_frames_are_inflated_and_checked() {
    let ping = [0x01u8, 0, 0, 0, 0, 0, 0, 0, 0x2a];
    let expected = ClientPacket::Status(ClientStatusPacket::Ping(StatusPing { payload: 42 }));
    let mut plain = vec![0u8];
    plain.extend_from_slice(&ping);
    assert_eq!(decode_frame(State::Status, &plain, true), Ok(expected.clone()));

    let mut staged = Vec::new();
    assert_eq!(stage_compressed_packet_into(&mut staged, &ping, 1), Ok(()));
    assert_eq!(staged[1], 9);
    assert_eq!(decode_frame(State::Status, &staged[1..], true), Ok(expected.clone()));

    let mut lying = staged[1..].to_vec();
    lying[0] = 8;
    assert_eq!(
        decode_frame(State::Status, &lying, true),
        Err(ReceiveError::InvalidReportedLength { reported: 8, actual: 9 })
    );
    assert_eq!(
        decode_frame(State::Status, &[9, 1, 2, 3], true),
        Err(ReceiveError::Decompression)
    );
    let nothing: [u8; 0] = [];
    assert_eq!(
        decode_frame(State::Status, &nothing, true),
        Err(ReceiveError::PacketLength(FieldReadError::UnexpectedEnd))
    );
    assert_eq!(
        decode_inflated(State::Status, 9, Some(ping.to_vec())),
        Ok(expected)
    );
    assert_eq!(
        decode_inflated(State::Status, -1, Some(ping.to_vec())),
        Err(ReceiveError::InvalidReportedLength { reported: -1, actual: 9 })
    );
    assert_eq!(decode_inflated(State::Status, 9, None), Err(ReceiveError::Decompression));
}

#[test]
fn a_connection_starts_plain_in_the_handshake_phase() {
    let connection = Connection::new(MAX_PACKET_LENGTH);
    assert_eq!(MAX_PACKET_LENGTH, 2 * 1024 * 1024);
    assert_eq!(connection.state(), State::Handshake);
    assert_eq!(connection.compression_threshold(), None);
    assert_eq!(connection.end_of_stream(), Ok(()));
}

#[test]
fn a_connection_reads_packets_across_chunk_borders() {
    let mut connection = Connection::new(MAX_PACKET_LENGTH);
    let frame = handshake_frame();
    assert_eq!(connection.parse_packet(), Ok(None));
    connection.receive(&frame[..1]);
    assert_eq!(connection.parse_packet(), Ok(None));
    connection.receive(&frame[1..7]);
    assert_eq!(connection.parse_packet(), Ok(None));
    assert_eq!(connection.end_of_stream(), Err(ReceiveError::ConnectionClosed));
    connection.receive(&frame[7..]);
    connection.receive(&[0x01, 0x00]);
    assert_eq!(connection.parse_packet(), Ok(Some(handshake())));
    connection.set_state(State::Status);
    assert_eq!(
        connection.parse_packet(),
        Ok(Some(ClientPacket::Status(ClientStatusPacket::Request(StatusRequest))))
    );
    assert_eq!(connection.parse_packet(), Ok(None));
    assert_eq!(connection.end_of_stream(), Ok(()));
}

#[test]
fn an_unknown_id_does_not_put_the_frames_behind_it_out_of_step() {
    let mut connection = Connection::new(MAX_PACKET_LENGTH);
    connection.set_state(State::Status);
    connection.receive(&[0x01, 0x00]);
    connection.receive(&[0x04, 0x63, 1, 2, 3]);
    connection.receive(&[0x09, 0x01, 0, 0, 0, 0, 0, 0, 0, 0x2a]);
    assert_eq!(
        connection.parse_packet(),
        Ok(Some(ClientPacket::Status(ClientStatusPacket::Request(StatusRequest))))
    );
    assert_eq!(
        connection.parse_packet(),
        Err(ReceiveError::Decode(ReadError::InvalidPacketId(0x63)))
    );
    assert_eq!(
        connection.parse_packet(),
        Ok(Some(ClientPacket::Status(ClientStatusPacket::Ping(StatusPing { payload: 42 }))))
    );
    assert_eq!(connection.parse_packet(), Ok(None));
}

#[test]
fn a_packet_of_another_phase_is_turned_down_and_passed_over() {
    let mut connection = Connection::new(MAX_PACKET_LENGTH);
    connection.receive(&[0x09, 0x01, 0, 0, 0, 0, 0, 0, 0, 0x2a]);
    connection.receive(&handshake_frame());
    assert_eq!(
        connection.parse_packet(),
        Err(ReceiveError::Decode(ReadError::InvalidPacketId(1)))
    );
    assert_eq!(connection.parse_packet(), Ok(Some(handshake())));
}

#[test]
fn a_broken_frame_leaves_the_buffer_too() {
    let mut connection = Connection::new(MAX_PACKET_LENGTH);
    connection.receive(&[0x02, 0x00, 0x01]);
    connection.receive(&handshake_frame());
    assert_eq!(
        connection.parse_packet(),
        Err(ReceiveError::Decode(ReadError::FieldDecode(
            "server_address",
            FieldReadError::UnexpectedEnd
        )))
    );
    assert_eq!(connection.parse_packet(), Ok(Some(handshake())));
}

#[test]
fn a_connection_refuses_frames_above_its_limit() {
    let mut connection = Connection::new(8);
    connection.receive(&[0x09, 0x01, 0, 0, 0, 0, 0, 0, 0, 0x2a]);
    assert_eq!(connection.parse_packet(), Err(ReceiveError::OversizedPacket(9)));
    assert_eq!(connection.parse_packet(), Err(ReceiveError::OversizedPacket(9)));
    let mut connection = Connection::new(9);
    connection.set_state(State::Status);
    connection.receive(&[0x09, 0x01, 0, 0, 0, 0, 0, 0, 0, 0x2a]);
    assert_eq!(
        connection.parse_packet(),
        Ok(Some(ClientPacket::Status(ClientStatusPacket::Ping(StatusPing { payload: 42 }))))
    );
}

#[test]
fn a_connection_frames_what_it_sends() {
    let mut connection = Connection::new(MAX_PACKET_LENGTH);
    let pong = ServerPacket::Status(ServerStatusPacket::Pong(StatusPong { payload: 42 }));
    assert_eq!(
        connection.write_packet(&pong),
        Ok(vec![0x09, 0x01, 0, 0, 0, 0, 0, 0, 0, 0x2a])
    );
    connection.set_compression_threshold(16);
    assert_eq!(connection.compression_threshold(), Some(16));
    assert_eq!(
        connection.write_packet(&pong),
        Ok(vec![0x0a, 0x00, 0x01, 0, 0, 0, 0, 0, 0, 0, 0x2a])
    );
    connection.set_compression_threshold(9);
    let wire = connection.write_packet(&pong).unwrap();
    assert_eq!(wire[0] as usize, wire.len() - 1);
    assert_eq!(wire[1], 9);
    assert_eq!(inflate(&wire[2..]), vec![0x01, 0, 0, 0, 0, 0, 0, 0, 0x2a]);
}

#[test]
fn a_connection_reads_compressed_frames_once_compression_is_on() {
    let mut connection = Connection::new(MAX_PACKET_LENGTH);
    connection.set_state(State::Play);
    connection.set_compression_threshold(32);
    let message = ClientPacket::Play(ClientPlayPacket::PluginMessage(PluginMessage {
        channel: "minecraft:brand".to_string(),
        data: RawBytes::new(vec![b'x'; 100]),
    }));
    let mut payload = Vec::new();
    assert_eq!(message.encode_to(&mut payload), Ok(()));
    let mut wire = Vec::new();
    assert_eq!(stage_compressed_packet_into(&mut wire, &payload, 32), Ok(()));
    assert!(wire.len() < payload.len());
    let keep_alive = [0x0au8, 0x00, 0x0f, 0, 0, 0, 0, 0, 0, 0, 7];
    connection.receive(&wire);
    connection.receive(&keep_alive);
    assert_eq!(connection.parse_packet(), Ok(Some(message)));
    assert_eq!(
        connection.parse_packet(),
        Ok(Some(ClientPacket::Play(ClientPlayPacket::KeepAlive(
            limbo::packets::client::play::KeepAlive { id: 7 }
        ))))
    );
}

#[test]
fn a_packet_that_cannot_be_encoded_is_not_sent() {
    let mut connection = Connection::new(MAX_PACKET_LENGTH);
    let keep_alive = ServerPacket::Play(ServerPlayPacket::KeepAlive(
        limbo::packets::server::play::KeepAlive { id: 0 },
    ));
    assert_eq!(
        connection.write_packet(&keep_alive),
        Ok(vec![9, 0x21, 0, 0, 0, 0, 0, 0, 0, 0])
    );
}
