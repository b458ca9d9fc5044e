use limbo::buffer::DecodeBuffer;
use limbo::chat::Message;
use limbo::error::{FieldReadError, ReadError};
use limbo::io::{RawBytes, VarIntPrefixedVec};
use limbo::packets::client::handshake::{ClientHandshakePacket, Handshake, NextState};
use limbo::packets::client::login::{ClientLoginPacket, EncryptionResponse, LoginStart};
use limbo::packets::client::play::{
    ClientPlayPacket, ClientSettings, KeepAlive, PlayerPosition, PlayerPositionAndRotation,
    PluginMessage, TeleportConfirm,
};
use limbo::packets::client::status::{ClientStatusPacket, StatusPing, StatusRequest};
use limbo::packets::client::ClientPacket;
use limbo::packets::server::login::{
    EncryptionRequest, LoginDisconnect, LoginSuccess, ServerLoginPacket, SetCompression,
};
use limbo::packets::server::play::{
    Disconnect, JoinGame, PlayerPositionAndLook, ServerPlayPacket, SpawnPosition,
};
use limbo::packets::server::status::{ServerStatusPacket, StatusPong};
use limbo::packets::server::ServerPacket;
use limbo::packets::State;
use limbo::types::{GameMode, Position};
use limbo::varint::VarInt;

fn handshake() -> ClientPacket {
    ClientPacket::Handshake(ClientHandshakePacket::Handshake(Handshake {
        protocol_version: VarInt(757),
        server_address: "localhost".to_string(),
        server_port: 25565,
        next_state: NextState::Status,
    }))
}

fn encode(packet: &ClientPacket) -> Vec<u8> {
    let mut out = Vec::new();
    assert_eq!(packet.encode_to(&mut out), Ok(()));
    out
}

fn encode_server(packet: &ServerPacket) -> Vec<u8> {
    let mut out = Vec::new();
    assert_eq!(packet.encode_to(&mut out), Ok(()));
    out
}

fn decode(state: State, bytes: &[u8]) -> Result<ClientPacket, ReadError> {
    let mut r = DecodeBuffer::new(bytes);
    ClientPacket::decode(state, &mut r)
}

#[test]
fn handshake_encodes_as_documented() {
    let bytes = encode(&handshake());
    assert_eq!(
        bytes,
        vec![
            0x00, 0xf5, 0x05, 0x09, 0x6c, 0x6f, 0x63, 0x61, 0x6c, 0x68, 0x6f, 0x73, 0x74, 0x63,
            0xdd, 0x01
        ]
    );
    assert_eq!(bytes.len(), 0x10);
    assert_eq!(decode(State::Handshake, &bytes), Ok(handshake()));
}

#[test]
fn every_client_packet_round_trips_in_its_phase() {
    let packets = vec![
        (State::Handshake, handshake()),
        (State::Status, ClientPacket::Status(ClientStatusPacket::Request(StatusRequest))),
        (
            State::Status,
            ClientPacket::Status(ClientStatusPacket::Ping(StatusPing { payload: -42 })),
        ),
        (
            State::Login,
            ClientPacket::Login(ClientLoginPacket::Start(LoginStart { name: "Notch".to_string() })),
        ),
        (
            State::Login,
            ClientPacket::Login(ClientLoginPacket::EncryptionResponse(EncryptionResponse {
                shared_secret: VarIntPrefixedVec(vec![1; 128]),
                verify_token: VarIntPrefixedVec(vec![2, 3, 4, 5]),
            })),
        ),
        (
            State::Play,
            ClientPacket::Play(ClientPlayPacket::TeleportConfirm(TeleportConfirm {
                id: VarInt(-7),
            })),
        ),
        (
            State::Play,
            ClientPacket::Play(ClientPlayPacket::ClientSettings(ClientSettings {
                locale: "en_GB".to_string(),
                view_distance: -3,
                chat_mode: VarInt(1),
                chat_colors: true,
                displayed_skin_parts: 0x7f,
                main_hand: VarInt(1),
                text_filtering: false,
                allow_server_listings: true,
            })),
        ),
        (
            State::Play,
            ClientPacket::Play(ClientPlayPacket::PluginMessage(PluginMessage {
                channel: "minecraft:brand".to_string(),
                data: RawBytes::new(vec![7, b'v', b'a', b'n', b'i', b'l', b'l', b'a']),
            })),
        ),
        (
            State::Play,
            ClientPacket::Play(ClientPlayPacket::KeepAlive(KeepAlive { id: u64::MAX })),
        ),
        (
            State::Play,
            ClientPacket::Play(ClientPlayPacket::PlayerPosition(PlayerPosition {
                x: 1.5f64.to_bits(),
                y: 64.0f64.to_bits(),
                z: (-0.25f64).to_bits(),
                on_ground: true,
            })),
        ),
        (
            State::Play,
            ClientPacket::Play(ClientPlayPacket::PlayerPositionAndRotation(
                PlayerPositionAndRotation {
                    x: 1.5f64.to_bits(),
                    y: 64.0f64.to_bits(),
                    z: (-0.25f64).to_bits(),
                    yaw: 90.0f32.to_bits(),
                    pitch: (-45.0f32).to_bits(),
                    on_ground: false,
                },
            )),
        ),
    ];
    for (state, packet) in packets {
        let bytes = encode(&packet);
        assert_eq!(decode(state, &bytes), Ok(packet));
    }
}

#[test]
fn client_packets_have_their_documented_ids() {
    let ping = ClientPacket::Status(ClientStatusPacket::Ping(StatusPing { payload: 42 }));
    assert_eq!(encode(&ping), vec![0x01, 0, 0, 0, 0, 0, 0, 0, 0x2a]);
    let request = ClientPacket::Status(ClientStatusPacket::Request(StatusRequest));
    assert_eq!(encode(&request), vec![0x00]);
    let settings = ClientPlayPacket::KeepAlive(KeepAlive { id: 1 });
    assert_eq!(settings.id(), 0x0f);
    let position = ClientPlayPacket::PlayerPosition(PlayerPosition {
        x: 1.0f64.to_bits(),
        y: 0,
        z: 0,
        on_ground: false,
    });
    let bytes = encode(&ClientPacket::Play(position));
    assert_eq!(bytes[0], 0x11);
    assert_eq!(&bytes[1..9], &1.0f64.to_be_bytes());
    assert_eq!(bytes.len(), 1 + 8 * 3 + 1);
}

#[test]
fn an_id_outside_the_table_of_the_phase_is_invalid() {
    let ping = [0x01u8, 0, 0, 0, 0, 0, 0, 0, 0x2a];
    assert_eq!(decode(State::Handshake, &ping), Err(ReadError::InvalidPacketId(1)));
    assert_eq!(decode(State::Status, &[0x02]), Err(ReadError::InvalidPacketId(2)));
    assert_eq!(decode(State::Login, &[0x02, 1, 2]), Err(ReadError::InvalidPacketId(2)));
    assert_eq!(decode(State::Play, &[0x01]), Err(ReadError::InvalidPacketId(1)));
    assert_eq!(decode(State::Play, &[0x7f, 9, 9]), Err(ReadError::InvalidPacketId(0x7f)));
    assert_eq!(
        decode(State::Play, &[0xff, 0xff, 0xff, 0xff, 0x0f]),
        Err(ReadError::InvalidPacketId(-1))
    );
}

#[test]
fn a_status_request_in_the_handshake_phase_reads_as_a_broken_handshake() {
    assert_eq!(
        decode(State::Handshake, &[0x00]),
        Err(ReadError::FieldDecode("protocol_version", FieldReadError::UnexpectedEnd))
    );
}

#[test]
fn field_errors_name_the_field() {
    let mut bytes = encode(&handshake());
    bytes.truncate(14);
    assert_eq!(
        decode(State::Handshake, &bytes),
        Err(ReadError::FieldDecode("server_port", FieldReadError::UnexpectedEnd))
    );
    let mut bytes = encode(&handshake());
    *bytes.last_mut().unwrap() = 3;
    assert_eq!(
        decode(State::Handshake, &bytes),
        Err(ReadError::FieldDecode("next_state", FieldReadError::InvalidEnumVariant(3)))
    );
    let mut bytes = encode(&handshake());
    bytes[4] = 0xff;
    assert_eq!(
        decode(State::Handshake, &bytes),
        Err(ReadError::FieldDecode("server_address", FieldReadError::InvalidUtf8))
    );
    let nothing: [u8; 0] = [];
    assert_eq!(
        decode(State::Login, &nothing),
        Err(ReadError::ReadPacketId(FieldReadError::UnexpectedEnd))
    );
    assert_eq!(
        decode(State::Login, &[0x80, 0x80, 0x80, 0x80, 0x80, 0x00]),
        Err(ReadError::ReadPacketId(FieldReadError::VariableTooLarge))
    );
    assert_eq!(
        decode(State::Login, &[0x01, 0x02, 0xaa]),
        Err(ReadError::FieldDecode("shared_secret", FieldReadError::UnexpectedEnd))
    );
}

#[test]
fn next_state_takes_only_status_and_login() {
    assert_eq!(NextState::Status.id(), 1);
    assert_eq!(NextState::Login.id(), 2);
    let mut r = DecodeBuffer::new(&[2u8]);
    assert_eq!(NextState::read_from(&mut r), Ok(NextState::Login));
    let mut r = DecodeBuffer::new(&[0u8]);
    assert_eq!(NextState::read_from(&mut r), Err(FieldReadError::InvalidEnumVariant(0)));
    assert_eq!(State::Handshake.id(), 0);
    assert_eq!(State::Status.id(), 1);
    assert_eq!(State::Login.id(), 2);
    assert_eq!(State::Play.id(), 3);
}

#[test]
fn bytes_behind_the_last_field_are_left_alone() {
    let mut bytes = encode(&handshake());
    bytes.extend_from_slice(&[1, 2, 3]);
    assert_eq!(decode(State::Handshake, &bytes), Ok(handshake()));
}

#[test]
fn server_packets_encode_with_their_ids() {
    let pong = ServerPacket::Status(ServerStatusPacket::Pong(StatusPong { payload: 42 }));
    assert_eq!(encode_server(&pong), vec![0x01, 0, 0, 0, 0, 0, 0, 0, 0x2a]);

    let compression =
        ServerPacket::Login(ServerLoginPacket::SetCompression(SetCompression {
            threshold: VarInt(256),
        }));
    assert_eq!(encode_server(&compression), vec![0x03, 0x80, 0x02]);

    let success = ServerPacket::Login(ServerLoginPacket::Success(LoginSuccess {
        uuid: 0x0102_0304_0506_0708_090a_0b0c_0d0e_0f10,
        name: "ab".to_string(),
    }));
    assert_eq!(
        encode_server(&success),
        vec![0x02, 1, 2, 3, 4, 5, 6, 7, 8, 9, 10, 11, 12, 13, 14, 15, 16, 2, b'a', b'b']
    );

    let request = ServerPacket::Login(ServerLoginPacket::EncryptionRequest(EncryptionRequest {
        server_id: String::new(),
        public_key: VarIntPrefixedVec(vec![0x30, 0x81]),
        verify_token: VarIntPrefixedVec(vec![1, 2, 3, 4]),
    }));
    assert_eq!(encode_server(&request), vec![0x01, 0, 2, 0x30, 0x81, 4, 1, 2, 3, 4]);

    let keep_alive =
        ServerPacket::Play(ServerPlayPacket::KeepAlive(limbo::packets::server::play::KeepAlive {
            id: 0,
        }));
    assert_eq!(encode_server(&keep_alive), vec![0x21, 0, 0, 0, 0, 0, 0, 0, 0]);

    let spawn = ServerPacket::Play(ServerPlayPacket::SpawnPosition(SpawnPosition {
        location: Position::new(0, 64, 0),
        angle: 0.0f32.to_bits(),
    }));
    assert_eq!(encode_server(&spawn), vec![0x4b, 0, 0, 0, 0, 0, 0, 0, 64, 0, 0, 0, 0]);

    let look = ServerPacket::Play(ServerPlayPacket::PlayerPositionAndLook(
        PlayerPositionAndLook {
            x: 0.0f64.to_bits(),
            y: 64.0f64.to_bits(),
            z: 0.0f64.to_bits(),
            yaw: 0,
            pitch: 0,
            flags: 0,
            teleport_id: VarInt(0),
            dismount_vehicle: true,
        },
    ));
    let bytes = encode_server(&look);
    assert_eq!(bytes[0], 0x38);
    assert_eq!(&bytes[9..17], &64.0f64.to_be_bytes());
    assert_eq!(bytes.len(), 1 + 24 + 8 + 1 + 1 + 1);
    assert_eq!(*bytes.last().unwrap(), 1);
}

#[test]
fn disconnects_carry_their_reason_as_json() {
    let login = ServerPacket::Login(ServerLoginPacket::Disconnect(LoginDisconnect {
        reason: Message::new("bye".to_string()),
    }));
    let bytes = encode_server(&login);
    assert_eq!(bytes[0], 0x00);
    assert_eq!(bytes[1] as usize, bytes.len() - 2);
    assert_eq!(&bytes[2..], b"{\"text\":\"bye\"}");
    let play = ServerPacket::Play(ServerPlayPacket::Disconnect(Disconnect {
        reason: Message::new("bye".to_string()),
    }));
    let bytes = encode_server(&play);
    assert_eq!(bytes[0], 0x1a);
    assert_eq!(&bytes[2..], b"{\"text\":\"bye\"}");
}

#[test]
fn join_game_writes_its_fields_in_order() {
    let join = ServerPacket::Play(ServerPlayPacket::JoinGame(JoinGame {
        entity_id: 7,
        hardcore: true,
        gamemode: GameMode::Creative,
        previous_gamemode: None,
        world_names: VarIntPrefixedVec(vec!["limbo".to_string()]),
        dimension_codec: RawBytes::new(vec![0x0a, 0x00]),
        dimension: RawBytes::new(vec![0x0b]),
        world_name: "w".to_string(),
        hashed_seed: -1,
        max_players: VarInt(1),
        view_distance: VarInt(32),
        simulation_distance: VarInt(33),
        reduced_debug_info: false,
        enable_respawn_screen: true,
        debug: false,
        flat: true,
    }));
    let mut expected = vec![0x26, 0, 0, 0, 7, 1, 1, 0xff];
    expected.extend_from_slice(b"\x01\x05limbo");
    expected.extend_from_slice(&[0x0a, 0x00, 0x0b]);
    expected.extend_from_slice(b"\x01w");
    expected.extend_from_slice(&[0xff; 8]);
    expected.extend_from_slice(&[1, 32, 33, 0, 1, 0, 1]);
    assert_eq!(encode_server(&join), expected);
}
