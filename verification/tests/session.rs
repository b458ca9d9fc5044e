use limbo::chat::Message;
use limbo::connection::{Connection, MAX_PACKET_LENGTH};
use limbo::error::{
    FieldReadError, FieldWriteError, ReadError, ReceiveError, SendError, WriteError,
};
use limbo::info::VersionInfo;
use limbo::io::{RawBytes, VarIntPrefixedVec};
use limbo::mojang::hash;
use limbo::packets::client::handshake::{ClientHandshakePacket, Handshake, NextState};
use limbo::packets::client::login::{ClientLoginPacket, EncryptionResponse, LoginStart};
use limbo::packets::client::play::{ClientPlayPacket, KeepAlive};
use limbo::packets::client::status::{ClientStatusPacket, StatusPing, StatusRequest};
use limbo::packets::client::ClientPacket;
use limbo::packets::server::login::{
    EncryptionRequest, LoginDisconnect, LoginSuccess, ServerLoginPacket, SetCompression,
};
use limbo::packets::server::play::{Disconnect, ServerPlayPacket};
use limbo::packets::server::status::{ServerStatusPacket, StatusPong};
use limbo::packets::server::ServerPacket;
use limbo::packets::State;
use limbo::session::{
    keep_alive, perform, same_bytes, token_of, Action, Client, PacketProcessingError, Settings,
    KEEP_ALIVE_INTERVAL_SECS, MAX_NAME_LENGTH, VERIFY_TOKEN_LENGTH,
};
use limbo::varint::VarInt;

fn settings() -> Settings {
    Settings {
        hidden: false,
        hide_player_count: false,
        max_players: 20,
        online_players: 3,
        motd: "A Limbo Server".to_string(),
        name: "Limbo".to_string(),
        favicon: None,
        compression_threshold: Some(256),
        version: VersionInfo::current(),
        online_mode: false,
        public_key: vec![0x30, 0x81, 0x9f],
        dimension_codec: vec![0x0a, 0x00, 0x00],
        dimension: vec![0x0a, 0x00],
    }
}

fn handshake(protocol: i32, next_state: NextState) -> ClientPacket {
    ClientPacket::Handshake(ClientHandshakePacket::Handshake(Handshake {
        protocol_version: VarInt(protocol),
        server_address: "localhost".to_string(),
        server_port: 25565,
        next_state,
    }))
}

fn login_start(name: &str) -> ClientPacket {
    ClientPacket::Login(ClientLoginPacket::Start(LoginStart { name: name.to_string() }))
}

fn login_disconnect(reason: &str) -> Action {
    Action::Send(ServerPacket::Login(ServerLoginPacket::Disconnect(LoginDisconnect {
        reason: Message::new(reason.to_string()),
    })))
}

fn play_disconnect(reason: &str) -> Action {
    Action::Send(ServerPacket::Play(ServerPlayPacket::Disconnect(Disconnect {
        reason: Message::new(reason.to_string()),
    })))
}

fn frames(mut wire: &[u8]) -> Vec<Vec<u8>> {
    let mut out = Vec::new();
    while !wire.is_empty() {
        let (start, len) = limbo::frame::find_frame(wire, MAX_PACKET_LENGTH).unwrap().unwrap();
        out.push(wire[start..start + len].to_vec());
        wire = &wire[start + len..];
    }
    out
}

#[test]
fn a_status_handshake_moves_to_the_status_phase() {
    let mut client = Client::new();
    let actions = client.react(
        State::Handshake,
        handshake(757, NextState::Status),
        &settings(),
        1,
        vec![1, 2, 3, 4],
    );
    assert_eq!(actions, vec![Action::SetState(State::Status)]);
    assert!(!client.is_disconnected());
    assert_eq!(client.name(), None);
    assert_eq!(client.uuid(), None);
}

#[test]
fn a_hidden_server_ends_a_status_handshake() {
    let mut hidden = settings();
    hidden.hidden = true;
    let mut client = Client::new();
    let actions = client.react(
        State::Handshake,
        handshake(757, NextState::Status),
        &hidden,
        1,
        vec![1, 2, 3, 4],
    );
    assert_eq!(actions, vec![Action::SetState(State::Status)]);
    assert!(client.is_disconnected());
    let mut client = Client::new();
    let actions = client.react(
        State::Handshake,
        handshake(757, NextState::Login),
        &hidden,
        1,
        vec![1, 2, 3, 4],
    );
    assert_eq!(actions, vec![Action::SetState(State::Login)]);
    assert!(!client.is_disconnected());
}

#[test]
fn a_login_with_another_version_is_turned_away() {
    for protocol in [756, 758, 0, -757] {
        let mut client = Client::new();
        let actions = client.react(
            State::Handshake,
            handshake(protocol, NextState::Login),
            &settings(),
            1,
            vec![1, 2, 3, 4],
        );
        assert_eq!(
            actions,
            vec![
                Action::SetState(State::Login),
                login_disconnect(
                    "Version mismatch between client and server. Please connect using 1.18.1."
                ),
            ]
        );
        assert!(client.is_disconnected());
    }
    let mut client = Client::new();
    let actions = client.react(
        State::Handshake,
        handshake(756, NextState::Status),
        &settings(),
        1,
        vec![1, 2, 3, 4],
    );
    assert_eq!(actions, vec![Action::SetState(State::Status)]);
    assert!(!client.is_disconnected());
}

#[test]
fn the_status_flow_answers_request_and_ping() {
    let mut connection = Connection::new(MAX_PACKET_LENGTH);
    let mut client = Client::new();
    let mut wire = Vec::new();
    connection.receive(&[
        0x10, 0x00, 0xf5, 0x05, 0x09, 0x6c, 0x6f, 0x63, 0x61, 0x6c, 0x68, 0x6f, 0x73, 0x74, 0x63,
        0xdd, 0x01,
    ]);
    connection.receive(&[0x01, 0x00]);
    connection.receive(&[0x09, 0x01, 0x00, 0x00, 0x00, 0x00, 0x00, 0x00, 0x00, 0x2a]);

    let packet = connection.parse_packet().unwrap().unwrap();
    let requests = client.process_packet(&mut connection, packet, &settings(), &mut wire);
    assert_eq!(requests, Ok(Vec::new()));
    assert_eq!(connection.state(), State::Status);
    assert!(wire.is_empty());

    let packet = connection.parse_packet().unwrap().unwrap();
    assert_eq!(packet, ClientPacket::Status(ClientStatusPacket::Request(StatusRequest)));
    let requests = client.process_packet(&mut connection, packet, &settings(), &mut wire);
    assert_eq!(requests, Ok(Vec::new()));
    let sent = frames(&wire);
    assert_eq!(sent.len(), 1);
    assert_eq!(sent[0][0], 0x00);
    assert_eq!(sent[0][1] as usize, sent[0].len() - 2);
    let json: serde_json::Value = serde_json::from_slice(&sent[0][2..]).unwrap();
    assert_eq!(json["version"]["name"].as_str(), Some("1.18.1"));
    assert_eq!(json["version"]["protocol"].as_i64(), Some(757));
    assert_eq!(json["players"]["max"].as_i64(), Some(20));
    assert_eq!(json["players"]["online"].as_i64(), Some(3));
    assert_eq!(json["description"]["text"].as_str(), Some("A Limbo Server"));

    wire.clear();
    let packet = connection.parse_packet().unwrap().unwrap();
    assert_eq!(
        packet,
        ClientPacket::Status(ClientStatusPacket::Ping(StatusPing { payload: 42 }))
    );
    let requests = client.process_packet(&mut connection, packet, &settings(), &mut wire);
    assert_eq!(requests, Ok(Vec::new()));
    assert_eq!(wire, vec![0x09, 0x01, 0, 0, 0, 0, 0, 0, 0, 0x2a]);
    assert_eq!(connection.parse_packet(), Ok(None));
    assert_eq!(connection.end_of_stream(), Ok(()));
    assert!(!client.is_disconnected());
}

#[test]
fn a_second_request_is_answered_again() {
    let mut client = Client::new();
    let request = ClientPacket::Status(ClientStatusPacket::Request(StatusRequest));
    let first = client.react(State::Status, request.clone(), &settings(), 1, vec![0; 4]);
    let second = client.react(State::Status, request, &settings(), 1, vec![0; 4]);
    assert_eq!(first.len(), 1);
    assert_eq!(first, second);
}

#[test]
fn hidden_player_counts_and_the_icon_reach_the_status_payload() {
    let mut custom = settings();
    custom.hide_player_count = true;
    custom.favicon = Some(b"hello world".to_vec());
    let mut client = Client::new();
    let request = ClientPacket::Status(ClientStatusPacket::Request(StatusRequest));
    let actions = client.react(State::Status, request, &custom, 1, vec![0; 4]);
    let mut connection = Connection::new(MAX_PACKET_LENGTH);
    let mut wire = Vec::new();
    assert_eq!(perform(&mut connection, &actions, &mut wire), Ok(Vec::new()));
    let sent = frames(&wire);
    let start = if sent[0][1] & 0x80 == 0 { 2 } else { 3 };
    let json: serde_json::Value = serde_json::from_slice(&sent[0][start..]).unwrap();
    assert!(json["players"].is_null());
    assert_eq!(json["favicon"].as_str(), Some("data:image/png;base64,aGVsbG8gd29ybGQ="));
}

#[test]
fn an_offline_login_enters_the_play_phase() {
    let mut client = Client::new();
    let actions = client.react(State::Login, login_start("Notch"), &settings(), 77, vec![0; 4]);
    assert_eq!(actions.len(), 9);
    assert_eq!(
        actions[0],
        Action::Send(ServerPacket::Login(ServerLoginPacket::SetCompression(SetCompression {
            threshold: VarInt(256),
        })))
    );
    assert_eq!(actions[1], Action::SetCompression(256));
    assert_eq!(
        actions[2],
        Action::Send(ServerPacket::Login(ServerLoginPacket::Success(LoginSuccess {
            uuid: 77,
            name: "Notch".to_string(),
        })))
    );
    assert_eq!(actions[3], Action::SetState(State::Play));
    assert_eq!(actions[4], Action::Joined);
    assert!(matches!(
        &actions[5],
        Action::Send(ServerPacket::Play(ServerPlayPacket::JoinGame(join)))
            if join.world_name == "limbo"
                && join.world_names == VarIntPrefixedVec(vec!["limbo".to_string()])
                && join.dimension_codec == RawBytes::new(vec![0x0a, 0x00, 0x00])
                && join.dimension == RawBytes::new(vec![0x0a, 0x00])
                && join.hardcore
                && join.max_players == VarInt(1)
                && join.view_distance == VarInt(32)
                && join.previous_gamemode.is_none()
    ));
    assert_eq!(
        actions[6],
        Action::SendPluginMessage {
            channel: "minecraft:brand".to_string(),
            text: "Limbo".to_string(),
        }
    );
    assert!(matches!(
        &actions[7],
        Action::Send(ServerPacket::Play(ServerPlayPacket::SpawnPosition(spawn)))
            if spawn.location.y == 64 && spawn.location.x == 0 && spawn.angle == 0
    ));
    assert!(matches!(
        &actions[8],
        Action::Send(ServerPacket::Play(ServerPlayPacket::PlayerPositionAndLook(look)))
            if look.y == 64.0f64.to_bits() && look.x == 0 && look.dismount_vehicle
    ));
    assert_eq!(client.name(), Some("Notch"));
    assert_eq!(client.uuid(), Some(77));
    assert!(!client.is_disconnected());
}

#[test]
fn performing_a_login_switches_compression_between_two_packets() {
    let mut client = Client::new();
    let mut connection = Connection::new(MAX_PACKET_LENGTH);
    connection.set_state(State::Login);
    let actions = client.react(State::Login, login_start("Notch"), &settings(), 77, vec![0; 4]);
    let mut wire = Vec::new();
    let requests = perform(&mut connection, &actions, &mut wire);
    assert_eq!(requests, Ok(vec![Action::Joined]));
    assert_eq!(connection.state(), State::Play);
    assert_eq!(connection.compression_threshold(), Some(256));
    let sent = frames(&wire);
    assert_eq!(sent.len(), 6);
    assert_eq!(sent[0], vec![0x03, 0x80, 0x02]);
    assert_eq!(&sent[1][..2], &[0x00, 0x02]);
    assert_eq!(&sent[1][18..], b"\x05Notch");
    assert_eq!(&sent[2][..2], &[0x00, 0x26]);
    assert_eq!(sent[3], b"\x00\x18\x0fminecraft:brand\x05Limbo".to_vec());
    assert_eq!(&sent[4][..2], &[0x00, 0x4b]);
    assert_eq!(&sent[5][..2], &[0x00, 0x38]);
}

#[test]
fn a_login_without_compression_sends_no_compression_packet() {
    let mut plain = settings();
    plain.compression_threshold = None;
    let mut client = Client::new();
    let actions = client.react(State::Login, login_start("Notch"), &plain, 77, vec![0; 4]);
    assert_eq!(actions.len(), 7);
    assert!(matches!(
        &actions[0],
        Action::Send(ServerPacket::Login(ServerLoginPacket::Success(_)))
    ));
}

#[test]
fn names_must_have_one_to_sixteen_characters() {
    assert_eq!(MAX_NAME_LENGTH, 16);
    let too_long = "a".repeat(17);
    for name in ["", too_long.as_str()] {
        let mut client = Client::new();
        let actions = client.react(State::Login, login_start(name), &settings(), 1, vec![0; 4]);
        assert_eq!(
            actions,
            vec![login_disconnect("Usernames should be between 1-16 characters long.")]
        );
        assert!(client.is_disconnected());
        assert_eq!(client.name(), None);
    }
    let sixteen = "\u{e9}".repeat(16);
    for name in ["a", sixteen.as_str()] {
        let mut client = Client::new();
        let actions = client.react(State::Login, login_start(name), &settings(), 1, vec![0; 4]);
        assert_eq!(actions.len(), 9);
        assert!(!client.is_disconnected());
    }
}

#[test]
fn a_second_login_start_ends_the_session() {
    let mut client = Client::new();
    client.react(State::Login, login_start("Notch"), &settings(), 1, vec![0; 4]);
    let actions = client.react(State::Play, login_start("Notch"), &settings(), 1, vec![0; 4]);
    assert_eq!(actions, vec![play_disconnect("Unexpected login start.")]);
    assert!(client.is_disconnected());
}

#[test]
fn an_online_login_asks_for_encryption_and_for_the_session_service() {
    let mut online = settings();
    online.online_mode = true;
    let mut client = Client::new();
    let token = vec![9, 8, 7, 6];
    let actions = client.react(State::Login, login_start("Notch"), &online, 1, token.clone());
    assert_eq!(
        actions,
        vec![Action::Send(ServerPacket::Login(ServerLoginPacket::EncryptionRequest(
            EncryptionRequest {
                server_id: String::new(),
                public_key: VarIntPrefixedVec(vec![0x30, 0x81, 0x9f]),
                verify_token: VarIntPrefixedVec(token.clone()),
            }
        )))]
    );
    assert_eq!(client.uuid(), None);

    let response = ClientPacket::Login(ClientLoginPacket::EncryptionResponse(
        EncryptionResponse {
            shared_secret: VarIntPrefixedVec(vec![1; 128]),
            verify_token: VarIntPrefixedVec(vec![2; 128]),
        },
    ));
    let actions = client.react(State::Login, response, &online, 1, vec![0; 4]);
    assert_eq!(
        actions,
        vec![Action::Decrypt { shared_secret: vec![1; 128], verify_token: vec![2; 128] }]
    );

    let secret = vec![5u8; 16];
    let actions =
        client.challenge_answered(State::Login, &online, Some(secret.clone()), Some(token));
    assert_eq!(
        actions,
        vec![
            Action::Encrypt(secret.clone()),
            Action::Send(ServerPacket::Login(ServerLoginPacket::SetCompression(
                SetCompression { threshold: VarInt(256) }
            ))),
            Action::SetCompression(256),
            Action::Authenticate {
                username: "Notch".to_string(),
                server_hash: hash("", &secret, &[0x30, 0x81, 0x9f]),
            },
        ]
    );
    assert!(!client.is_disconnected());

    let actions = client.authenticated(State::Login, &online, Some(0xabc));
    assert_eq!(actions.len(), 7);
    assert_eq!(
        actions[0],
        Action::Send(ServerPacket::Login(ServerLoginPacket::Success(LoginSuccess {
            uuid: 0xabc,
            name: "Notch".to_string(),
        })))
    );
    assert_eq!(actions[2], Action::Joined);
    assert_eq!(client.uuid(), Some(0xabc));
}

#[test]
fn a_wrong_answer_to_the_challenge_ends_the_session() {
    let mut online = settings();
    online.online_mode = true;
    let reason = "Invalid encryption challenge response";
    let cases: Vec<(Option<Vec<u8>>, Option<Vec<u8>>)> = vec![
        (Some(vec![5; 16]), Some(vec![9, 8, 7, 5])),
        (Some(vec![5; 15]), Some(vec![9, 8, 7, 6])),
        (Some(vec![5; 17]), Some(vec![9, 8, 7, 6])),
        (None, Some(vec![9, 8, 7, 6])),
        (Some(vec![5; 16]), None),
        (Some(vec![5; 16]), Some(vec![9, 8, 7])),
    ];
    for (secret, token) in cases {
        let mut client = Client::new();
        client.react(State::Login, login_start("Notch"), &online, 1, vec![9, 8, 7, 6]);
        let actions = client.challenge_answered(State::Login, &online, secret, token);
        assert_eq!(actions, vec![login_disconnect(reason)]);
        assert!(client.is_disconnected());
    }
    let mut client = Client::new();
    let actions =
        client.challenge_answered(State::Login, &online, Some(vec![5; 16]), Some(vec![0; 4]));
    assert_eq!(actions, vec![login_disconnect(reason)]);
}

#[test]
fn an_encryption_response_out_of_turn_ends_the_session() {
    let mut client = Client::new();
    let response = ClientPacket::Login(ClientLoginPacket::EncryptionResponse(
        EncryptionResponse {
            shared_secret: VarIntPrefixedVec(vec![1]),
            verify_token: VarIntPrefixedVec(vec![2]),
        },
    ));
    let actions = client.react(State::Login, response, &settings(), 1, vec![0; 4]);
    assert_eq!(actions, vec![login_disconnect("Unexpected encryption response.")]);
    assert!(client.is_disconnected());
}

#[test]
fn a_session_that_the_service_does_not_confirm_ends() {
    let mut online = settings();
    online.online_mode = true;
    let mut client = Client::new();
    client.react(State::Login, login_start("Notch"), &online, 1, vec![9, 8, 7, 6]);
    let actions = client.authenticated(State::Login, &online, None);
    assert_eq!(actions, vec![login_disconnect("Could not validate session")]);
    assert!(client.is_disconnected());
    let mut client = Client::new();
    let actions = client.authenticated(State::Login, &online, Some(1));
    assert_eq!(actions, vec![login_disconnect("Could not validate session")]);
}

#[test]
fn packets_in_play_ask_for_nothing() {
    let mut client = Client::new();
    let packet = ClientPacket::Play(ClientPlayPacket::KeepAlive(KeepAlive { id: 99 }));
    assert_eq!(client.react(State::Play, packet, &settings(), 1, vec![0; 4]), Vec::new());
    assert!(!client.is_disconnected());
}

#[test]
fn what_goes_wrong_on_the_receiving_side() {
    let mut client = Client::new();
    let unknown = ReceiveError::Decode(ReadError::InvalidPacketId(0x63));
    assert_eq!(client.receive_failed(State::Play, unknown), Vec::new());
    assert!(!client.is_disconnected());

    let mut client = Client::new();
    assert_eq!(client.receive_failed(State::Play, ReceiveError::ConnectionClosed), Vec::new());
    assert!(client.is_disconnected());

    let broken = [
        ReceiveError::Decode(ReadError::FieldDecode("name", FieldReadError::InvalidUtf8)),
        ReceiveError::Decode(ReadError::ReadPacketId(FieldReadError::VariableTooLarge)),
        ReceiveError::Decompression,
        ReceiveError::OversizedPacket(-1),
        ReceiveError::PacketLength(FieldReadError::VariableTooLarge),
        ReceiveError::InvalidReportedLength { reported: 1, actual: 2 },
    ];
    for error in broken {
        let mut client = Client::new();
        assert_eq!(client.receive_failed(State::Play, error), vec![play_disconnect("Bad packet.")]);
        assert!(client.is_disconnected());
        let mut client = Client::new();
        assert_eq!(client.receive_failed(State::Login, error), vec![login_disconnect("Bad packet.")]);
        let mut client = Client::new();
        assert_eq!(client.receive_failed(State::Status, error), Vec::new());
        assert!(client.is_disconnected());
    }
}

#[test]
fn a_shutdown_tells_the_client_why() {
    let mut client = Client::new();
    assert_eq!(
        client.shut_down(State::Play),
        vec![play_disconnect("Server is shutting down.")]
    );
    assert!(client.is_disconnected());
    let mut client = Client::new();
    assert_eq!(
        client.shut_down(State::Login),
        vec![login_disconnect("Server is shutting down.")]
    );
    let mut client = Client::new();
    assert_eq!(client.shut_down(State::Handshake), Vec::new());
    assert!(client.is_disconnected());
    let mut client = Client::new();
    assert_eq!(client.disconnect(State::Status, "x"), Vec::new());
    assert!(client.is_disconnected());
    let mut client = Client::new();
    client.peer_closed();
    assert!(client.is_disconnected());
}

#[test]
fn performing_encrypts_from_the_switch_on() {
    let mut connection = Connection::new(MAX_PACKET_LENGTH);
    let pong = ServerPacket::Status(ServerStatusPacket::Pong(StatusPong { payload: 42 }));
    let actions = vec![
        Action::Send(pong.clone()),
        Action::Encrypt(vec![7; 16]),
        Action::Send(pong.clone()),
        Action::Decrypt { shared_secret: vec![1], verify_token: vec![2] },
        Action::Encrypt(vec![7; 3]),
        Action::Authenticate { username: "a".to_string(), server_hash: "b".to_string() },
    ];
    let mut wire = vec![0xee];
    let requests = perform(&mut connection, &actions, &mut wire);
    assert_eq!(
        requests,
        Ok(vec![
            Action::Decrypt { shared_secret: vec![1], verify_token: vec![2] },
            Action::Authenticate { username: "a".to_string(), server_hash: "b".to_string() },
        ])
    );
    let plain = [0x09u8, 0x01, 0, 0, 0, 0, 0, 0, 0, 0x2a];
    assert_eq!(wire.len(), 21);
    assert_eq!(&wire[..11], &[&[0xee][..], &plain[..]].concat()[..]);
    assert_ne!(&wire[11..], &plain[..]);
    let mut reference = limbo::cipher::Cfb8::new(&[7; 16], &[7; 16]).unwrap();
    let mut expected = plain.to_vec();
    reference.encrypt(&mut expected);
    assert_eq!(&wire[11..], &expected[..]);
}

#[test]
fn a_brand_that_cannot_be_written_stops_the_performing() {
    let error = PacketProcessingError::Send(SendError::Encode(WriteError::Field(
        "data",
        FieldWriteError::LengthOverflow,
    )));
    assert_ne!(error, PacketProcessingError::Send(SendError::Compression));
    let mut connection = Connection::new(MAX_PACKET_LENGTH);
    let mut wire = Vec::new();
    let actions = vec![Action::SendPluginMessage {
        channel: "minecraft:brand".to_string(),
        text: "vanilla".to_string(),
    }];
    assert_eq!(perform(&mut connection, &actions, &mut wire), Ok(Vec::new()));
    assert_eq!(wire, b"\x19\x18\x0fminecraft:brand\x07vanilla".to_vec());
}

#[test]
fn helpers_of_the_session() {
    assert_eq!(KEEP_ALIVE_INTERVAL_SECS, 5);
    assert_eq!(VERIFY_TOKEN_LENGTH, 4);
    assert_eq!(token_of(0x0102_0304_0506_0708_090a_0b0c_0d0e_0f10), vec![0x0d, 0x0e, 0x0f, 0x10]);
    assert!(same_bytes(&[1, 2, 3], &[1, 2, 3]));
    assert!(same_bytes(&[], &[]));
    assert!(!same_bytes(&[1, 2, 3], &[1, 2, 4]));
    assert!(!same_bytes(&[1, 2, 3], &[1, 2]));
    assert_eq!(
        keep_alive(),
        ServerPacket::Play(ServerPlayPacket::KeepAlive(limbo::packets::server::play::KeepAlive {
            id: 0,
        }))
    );
}

#[test]
fn processing_a_login_draws_a_fresh_identity_each_time() {
    let mut first = Client::new();
    let mut second = Client::new();
    let mut connection = Connection::new(MAX_PACKET_LENGTH);
    connection.set_state(State::Login);
    let mut wire = Vec::new();
    let requests = first.process_packet(&mut connection, login_start("a"), &settings(), &mut wire);
    assert_eq!(requests, Ok(vec![Action::Joined]));
    let mut connection = Connection::new(MAX_PACKET_LENGTH);
    connection.set_state(State::Login);
    let requests = second.process_packet(&mut connection, login_start("b"), &settings(), &mut wire);
    assert_eq!(requests, Ok(vec![Action::Joined]));
    assert!(first.uuid().is_some());
    assert_ne!(first.uuid(), second.uuid());
    let version = uuid::Uuid::from_u128(first.uuid().unwrap()).get_version_num();
    assert_eq!(version, 4);
}
