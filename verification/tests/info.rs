use limbo::chat::Message;
use limbo::config::{
    Config, Info, LogLevel, Server, DEFAULT_COMPRESSION_THRESHOLD, DEFAULT_PORT,
};
use limbo::info::{ServerInfo, ServerPlayerInfo, VersionInfo, PROTOCOL_VERSION, VERSION_NAME};

fn parse(json: &str) -> serde_json::Value {
    serde_json::from_str(json).unwrap()
}

#[test]
fn a_message_is_a_json_object_with_its_text() {
    let message = Message::new("A Limbo Server".to_string());
    assert_eq!(message.text(), "A Limbo Server");
    assert_eq!(message.to_json(), "{\"text\":\"A Limbo Server\"}");
    let tricky = Message::new("say \"hi\"\n\\ \u{e9}".to_string());
    let value = parse(&tricky.to_json());
    assert_eq!(value["text"].as_str(), Some("say \"hi\"\n\\ \u{e9}"));
    assert_eq!(value.as_object().unwrap().len(), 1);
}

#[test]
fn a_message_is_written_as_a_string_field() {
    let mut out = Vec::new();
    assert_eq!(Message::new("x".to_string()).write_to(&mut out), Ok(()));
    assert_eq!(out, b"\x0c{\"text\":\"x\"}".to_vec());
}

#[test]
fn the_version_is_the_one_of_the_protocol() {
    let version = VersionInfo::current();
    assert_eq!(version.name, "1.18.1");
    assert_eq!(version.protocol, 757);
    assert_eq!(PROTOCOL_VERSION, 757);
    assert_eq!(VERSION_NAME, "1.18.1");
}

#[test]
fn player_counts_keep_their_places() {
    let players = ServerPlayerInfo::simple(12, 20);
    assert_eq!(players.online, 12);
    assert_eq!(players.max, 20);
}

#[test]
fn the_status_payload_is_the_expected_json() {
    let info = ServerInfo::new(
        VersionInfo::current(),
        Some(ServerPlayerInfo::simple(3, -1)),
        Message::new("A Limbo Server".to_string()),
        None,
    );
    assert_eq!(
        info.to_json(),
        "{\"version\":{\"name\":\"1.18.1\",\"protocol\":757},\"players\":{\"max\":-1,\"online\":3},\"description\":{\"text\":\"A Limbo Server\"}}"
    );
    let value = parse(&info.to_json());
    assert_eq!(value["version"]["protocol"].as_i64(), Some(757));
    assert_eq!(value["players"]["max"].as_i64(), Some(-1));
    assert_eq!(value["players"]["online"].as_i64(), Some(3));
    assert_eq!(value["description"]["text"].as_str(), Some("A Limbo Server"));
    assert!(value.get("favicon").is_none());
}

#[test]
fn hidden_player_counts_are_null_and_an_icon_is_a_data_url() {
    let info = ServerInfo::new(
        VersionInfo { name: "x", protocol: usize::MAX },
        None,
        Message::new(String::new()),
        Some(b"hello world"),
    );
    let value = parse(&info.to_json());
    assert!(value["players"].is_null());
    assert_eq!(value["version"]["protocol"].as_u64(), Some(usize::MAX as u64));
    assert_eq!(
        value["favicon"].as_str(),
        Some("data:image/png;base64,aGVsbG8gd29ybGQ=")
    );
    let mut out = Vec::new();
    assert_eq!(info.write_to(&mut out), Ok(()));
    let length = info.to_json().len();
    assert!(length > 127);
    assert_eq!(out[0] as usize, 0x80 | (length & 0x7f));
    assert_eq!(out[1] as usize, length >> 7);
    assert_eq!(&out[2..], info.to_json().as_bytes());
}

#[test]
fn the_default_configuration() {
    let config = Config::default();
    assert_eq!(config.server.host, "0.0.0.0");
    assert_eq!(config.server.port, 25565);
    assert_eq!(config.server.log_level, LogLevel::Info);
    assert_eq!(config.server.compression_threshold, 256);
    assert_eq!(config.server.protocol_version, 757);
    assert!(!config.info.hidden);
    assert_eq!(config.info.max_players, -1);
    assert!(!config.info.hide_player_count);
    assert_eq!(config.info.motd, "A Limbo Server");
    assert_eq!(config.info.name, "Limbo");
    assert_eq!(config.info.icon, "icon.png");
    assert_eq!(config.info.icon_cache, None);
    assert_eq!(Server::default(), config.server);
    assert_eq!(Info::default(), config.info);
    assert_eq!(DEFAULT_PORT, 25565);
    assert_eq!(DEFAULT_COMPRESSION_THRESHOLD, 256);
}

#[test]
fn the_icon_is_read_once() {
    let mut info = Info::default();
    assert!(info.needs_icon());
    assert_eq!(info.icon(), None);
    info.store_icon(None);
    assert!(!info.needs_icon());
    assert_eq!(info.icon(), None);
    assert_eq!(info.icon_cache, Some(Vec::new()));

    let mut info = Info::default();
    info.store_icon(Some(vec![1, 2, 3]));
    assert!(!info.needs_icon());
    assert_eq!(info.icon(), Some(&[1u8, 2, 3][..]));
    assert_eq!(info.motd, "A Limbo Server");

    let mut info = Info::default();
    info.store_icon(Some(Vec::new()));
    assert!(!info.needs_icon());
    assert_eq!(info.icon(), None);
}
