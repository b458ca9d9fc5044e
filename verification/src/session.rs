//! The session of one client: what the server does on each packet and on
//! each thing that happens to the connection. The decisions are made here;
//! the socket, the clock and the session service stay with the embedder,
//! which is told what to do for them.

use vstd::prelude::*;
use vstd::string::{StrSliceExecFns, StringExecFns};
use crate::chat::Message;
use crate::cipher::BLOCK_LENGTH;
use crate::connection::{moved_on, sealed, staged_frame, Connection, ConnectionView};
use crate::error::{ReadError, ReceiveError, SendError, WriteError};
use crate::info::{favicon_url, ServerInfo, ServerInfoView, ServerPlayerInfo, VersionInfo};
use crate::io::{RawBytes, VarIntPrefixedVec};
use crate::mojang::{hash, session_hash};
use crate::packets::client::handshake::{
    ClientHandshakePacket, ClientHandshakePacketView, NextState,
};
use crate::packets::client::login::{ClientLoginPacket, ClientLoginPacketView};
use crate::packets::client::status::ClientStatusPacket;
use crate::packets::client::{ClientPacket, ClientPacketView};
use crate::packets::server::login::{
    EncryptionRequest, EncryptionRequestView, LoginDisconnect, LoginDisconnectView, LoginSuccess,
    LoginSuccessView, ServerLoginPacket, ServerLoginPacketView, SetCompression, SetCompressionView,
};
use crate::packets::server::play::{
    Disconnect, DisconnectView, JoinGame, JoinGameView, KeepAlive, PlayerPositionAndLook,
    PlayerPositionAndLookView, PluginMessage, PluginMessageView, ServerPlayPacket,
    ServerPlayPacketView, SpawnPosition,
};
use crate::text::{string_encoding, write_string, MAX_LENGTH};
use vstd::utf8::encode_utf8;
use vstd::slice::slice_to_vec;
use crate::packets::server::status::{
    ServerStatusPacket, ServerStatusPacketView, StatusPong, StatusResponse, StatusResponseView,
};
use crate::packets::server::{ServerPacket, ServerPacketView};
use crate::packets::State;
use crate::types::{GameMode, Position};
use crate::varint::VarInt;

verus! {

/// Seconds between two keep-alives in the play phase.
pub const KEEP_ALIVE_INTERVAL_SECS: u64 = 5;

/// The longest name that a player may have, in characters.
pub const MAX_NAME_LENGTH: usize = 16;

/// Bytes in the token that the client has to send back encrypted.
pub const VERIFY_TOKEN_LENGTH: usize = 4;

/// The bits of the 64-bit float 64.0, the height at which players are put.
pub const SPAWN_HEIGHT_BITS: u64 = 0x4050_0000_0000_0000;

/// Why a packet could not be answered.
#[derive(Debug, Clone, Copy, PartialEq, Eq)]
pub enum PacketProcessingError {
    /// An answer could not be staged for sending.
    Send(SendError),
}

/// What the session reads of its surroundings when it decides.
#[derive(Debug, Clone, PartialEq, Eq)]
pub struct Settings {
    /// Whether status requests go unanswered.
    pub hidden: bool,
    /// Whether the status payload leaves the player counts out.
    pub hide_player_count: bool,
    pub max_players: isize,
    /// How many players are in the play phase right now.
    pub online_players: isize,
    pub motd: String,
    /// The brand that the server reports to clients in play.
    pub name: String,
    /// The icon of the server, PNG data.
    pub favicon: Option<Vec<u8>>,
    /// The length from which packets are deflated after the login; none to
    /// leave compression off.
    pub compression_threshold: Option<usize>,
    /// The version that clients must speak to log in.
    pub version: VersionInfo,
    /// Whether logins are checked with the session service.
    pub online_mode: bool,
    /// The public key of the server, DER-encoded.
    pub public_key: Vec<u8>,
    /// The registry of dimensions, opaque NBT.
    pub dimension_codec: Vec<u8>,
    /// The dimension that players are put in, opaque NBT.
    pub dimension: Vec<u8>,
}

/// What `Settings` hold.
pub struct SettingsView {
    pub hidden: bool,
    pub hide_player_count: bool,
    pub max_players: isize,
    pub online_players: isize,
    pub motd: Seq<char>,
    pub name: Seq<char>,
    pub favicon: Option<Seq<u8>>,
    pub compression_threshold: Option<usize>,
    pub version_name: Seq<char>,
    pub protocol_version: usize,
    pub online_mode: bool,
    pub public_key: Seq<u8>,
    pub dimension_codec: Seq<u8>,
    pub dimension: Seq<u8>,
}

impl View for Settings {
    type V = SettingsView;

    open spec fn view(&self) -> SettingsView {
        SettingsView {
            hidden: self.hidden,
            hide_player_count: self.hide_player_count,
            max_players: self.max_players,
            online_players: self.online_players,
            motd: self.motd@,
            name: self.name@,
            favicon: match self.favicon {
                Some(png) => Some(png@),
                None => None,
            },
            compression_threshold: self.compression_threshold,
            version_name: self.version.name@,
            protocol_version: self.version.protocol,
            online_mode: self.online_mode,
            public_key: self.public_key@,
            dimension_codec: self.dimension_codec@,
            dimension: self.dimension@,
        }
    }
}

/// One thing that a decision asks for. The first five change the
/// connection or send something; the last three are for the embedder.
#[derive(Debug, Clone, PartialEq, Eq)]
pub enum Action {
    /// Send this packet.
    Send(ServerPacket),
    /// Send a plugin message in the play phase that carries `text` as a
    /// string field.
    SendPluginMessage { channel: String, text: String },
    /// Move the conversation to this phase.
    SetState(State),
    /// Switch compressed framing on, with this threshold.
    SetCompression(usize),
    /// Switch encryption on, with this shared secret.
    Encrypt(Vec<u8>),
    /// A player has entered the play phase: count them, and start to send
    /// keep-alives.
    Joined,
    /// Decrypt both fields with the private key of the server and hand the
    /// result to `challenge_answered`.
    Decrypt { shared_secret: Vec<u8>, verify_token: Vec<u8> },
    /// Ask the session service whether this player has joined under this
    /// hash and hand the result to `authenticated`.
    Authenticate { username: String, server_hash: String },
}

/// What an `Action` holds.
pub enum ActionView {
    Send(ServerPacketView),
    SendPluginMessage { channel: Seq<char>, text: Seq<char> },
    SetState(State),
    SetCompression(usize),
    Encrypt(Seq<u8>),
    Joined,
    Decrypt { shared_secret: Seq<u8>, verify_token: Seq<u8> },
    Authenticate { username: Seq<char>, server_hash: Seq<char> },
}

impl View for Action {
    type V = ActionView;

    open spec fn view(&self) -> ActionView {
        match self {
            Action::Send(p) => ActionView::Send(p@),
            Action::SendPluginMessage { channel, text } => ActionView::SendPluginMessage {
                channel: channel@,
                text: text@,
            },
            Action::SetState(s) => ActionView::SetState(*s),
            Action::SetCompression(t) => ActionView::SetCompression(*t),
            Action::Encrypt(secret) => ActionView::Encrypt(secret@),
            Action::Joined => ActionView::Joined,
            Action::Decrypt { shared_secret, verify_token } => ActionView::Decrypt {
                shared_secret: shared_secret@,
                verify_token: verify_token@,
            },
            Action::Authenticate { username, server_hash } => ActionView::Authenticate {
                username: username@,
                server_hash: server_hash@,
            },
        }
    }
}

/// The views of a list of actions.
pub open spec fn action_views(actions: Seq<Action>) -> Seq<ActionView> {
    actions.map_values(|a: Action| a@)
}

/// What a session remembers between two packets.
pub struct SessionView {
    /// Whether the session is over.
    pub disconnected: bool,
    /// The name that the player logged in with.
    pub name: Option<Seq<char>>,
    /// The identity of the player, once it is known.
    pub uuid: Option<u128>,
    /// The token that the client has yet to send back encrypted.
    pub verify_token: Option<Seq<u8>>,
}

/// What a decision comes to: what the session remembers from now on, and
/// what is to be done, in this order.
pub struct Decision {
    pub session: SessionView,
    pub actions: Seq<ActionView>,
}

/// The session as it was, with nothing to do.
pub open spec fn nothing(session: SessionView) -> Decision {
    Decision { session, actions: Seq::empty() }
}

/// The session as it was but over, with nothing to do.
pub open spec fn close(session: SessionView) -> Decision {
    Decision { session: SessionView { disconnected: true, ..session }, actions: Seq::empty() }
}

/// The packet that tells the client why it is turned away, if the phase
/// has one.
pub open spec fn disconnect_actions(state: State, reason: Seq<char>) -> Seq<ActionView> {
    match state {
        State::Login => seq![
            ActionView::Send(
                ServerPacketView::Login(
                    ServerLoginPacketView::Disconnect(LoginDisconnectView { reason }),
                ),
            ),
        ],
        State::Play => seq![
            ActionView::Send(
                ServerPacketView::Play(ServerPlayPacketView::Disconnect(DisconnectView { reason })),
            ),
        ],
        _ => Seq::empty(),
    }
}

/// The end of a session for a reason.
pub open spec fn disconnect_decision(state: State, session: SessionView, reason: Seq<char>) -> Decision {
    Decision {
        session: SessionView { disconnected: true, ..session },
        actions: disconnect_actions(state, reason),
    }
}

/// Why a client of another version is turned away.
pub open spec fn version_mismatch_reason(version_name: Seq<char>) -> Seq<char> {
    "Version mismatch between client and server. Please connect using "@ + version_name + "."@
}

/// The status payload that the settings ask for.
pub open spec fn status_info(settings: SettingsView) -> ServerInfoView {
    ServerInfoView {
        version_name: settings.version_name,
        protocol: settings.protocol_version,
        players: if settings.hide_player_count {
            None
        } else {
            Some(
                ServerPlayerInfo { max: settings.max_players, online: settings.online_players },
            )
        },
        description: settings.motd,
        favicon: match settings.favicon {
            Some(png) => Some(favicon_url(png)),
            None => None,
        },
    }
}

/// What switches compression on, if the settings ask for it: the packet
/// that announces it, and then the switch itself.
pub open spec fn compression_actions(settings: SettingsView) -> Seq<ActionView> {
    match settings.compression_threshold {
        Some(t) => seq![
            ActionView::Send(
                ServerPacketView::Login(
                    ServerLoginPacketView::SetCompression(
                        SetCompressionView { threshold: t as i32 },
                    ),
                ),
            ),
            ActionView::SetCompression(t),
        ],
        None => Seq::empty(),
    }
}

/// The packet that puts a player into the world.
pub open spec fn join_game(settings: SettingsView) -> JoinGameView {
    JoinGameView {
        entity_id: 0,
        hardcore: true,
        gamemode: GameMode::Survival,
        previous_gamemode: None,
        world_names: seq!["limbo"@],
        dimension_codec: settings.dimension_codec,
        dimension: settings.dimension,
        world_name: "limbo"@,
        hashed_seed: 0,
        max_players: 1,
        view_distance: 32,
        simulation_distance: 32,
        reduced_debug_info: false,
        enable_respawn_screen: false,
        debug: false,
        flat: false,
    }
}

/// The packet that places a player at the spawn point.
pub open spec fn spawn_look() -> PlayerPositionAndLookView {
    PlayerPositionAndLookView {
        x: 0,
        y: SPAWN_HEIGHT_BITS,
        z: 0,
        yaw: 0,
        pitch: 0,
        flags: 0,
        teleport_id: 0,
        dismount_vehicle: true,
    }
}

/// What ends a login well: the success packet, the move to the play phase,
/// and the packets that a client needs to finish loading.
pub open spec fn join_actions(uuid: u128, name: Seq<char>, settings: SettingsView) -> Seq<
    ActionView,
> {
    seq![
        ActionView::Send(
            ServerPacketView::Login(
                ServerLoginPacketView::Success(LoginSuccessView { uuid, name }),
            ),
        ),
        ActionView::SetState(State::Play),
        ActionView::Joined,
        ActionView::Send(
            ServerPacketView::Play(ServerPlayPacketView::JoinGame(join_game(settings))),
        ),
        ActionView::SendPluginMessage { channel: "minecraft:brand"@, text: settings.name },
        ActionView::Send(
            ServerPacketView::Play(
                ServerPlayPacketView::SpawnPosition(
                    SpawnPosition { location: Position { x: 0, y: 64, z: 0 }, angle: 0 },
                ),
            ),
        ),
        ActionView::Send(
            ServerPacketView::Play(ServerPlayPacketView::PlayerPositionAndLook(spawn_look())),
        ),
    ]
}

/// What the server does on the handshake: it moves to the phase that the
/// client asks for. A login with another protocol version is turned away
/// with a reason, and a hidden server lets a status handshake end there.
pub open spec fn on_handshake(
    session: SessionView,
    settings: SettingsView,
    protocol_version: i32,
    next_state: NextState,
) -> Decision {
    match next_state {
        NextState::Login => if settings.protocol_version != protocol_version {
            Decision {
                session: SessionView { disconnected: true, ..session },
                actions: seq![ActionView::SetState(State::Login)] + disconnect_actions(
                    State::Login,
                    version_mismatch_reason(settings.version_name),
                ),
            }
        } else {
            Decision { session, actions: seq![ActionView::SetState(State::Login)] }
        },
        NextState::Status => Decision {
            session: SessionView {
                disconnected: session.disconnected || settings.hidden,
                ..session
            },
            actions: seq![ActionView::SetState(State::Status)],
        },
    }
}

/// What the server does on a login start. A second one, or a name that
/// does not have one to sixteen characters, ends the session with a reason.
/// In online mode the client is asked to set up encryption; otherwise the
/// player gets a fresh identity and enters the play phase.
pub open spec fn on_login_start(
    state: State,
    session: SessionView,
    settings: SettingsView,
    name: Seq<char>,
    fresh_uuid: u128,
    fresh_token: Seq<u8>,
) -> Decision {
    if session.name.is_some() {
        disconnect_decision(state, session, "Unexpected login start."@)
    } else if name.len() == 0 || name.len() > MAX_NAME_LENGTH {
        disconnect_decision(state, session, "Usernames should be between 1-16 characters long."@)
    } else if settings.online_mode {
        Decision {
            session: SessionView { name: Some(name), verify_token: Some(fresh_token), ..session },
            actions: seq![
                ActionView::Send(
                    ServerPacketView::Login(
                        ServerLoginPacketView::EncryptionRequest(
                            EncryptionRequestView {
                                server_id: Seq::empty(),
                                public_key: settings.public_key,
                                verify_token: fresh_token,
                            },
                        ),
                    ),
                ),
            ],
        }
    } else {
        Decision {
            session: SessionView { name: Some(name), uuid: Some(fresh_uuid), ..session },
            actions: compression_actions(settings) + join_actions(fresh_uuid, name, settings),
        }
    }
}

/// What the server does on a packet of a client in the phase `state`.
pub open spec fn decide(
    state: State,
    session: SessionView,
    settings: SettingsView,
    packet: ClientPacketView,
    fresh_uuid: u128,
    fresh_token: Seq<u8>,
) -> Decision {
    match packet {
        ClientPacketView::Handshake(ClientHandshakePacketView::Handshake(h)) => on_handshake(
            session,
            settings,
            h.protocol_version,
            h.next_state,
        ),
        ClientPacketView::Status(ClientStatusPacket::Request(_)) => Decision {
            session,
            actions: seq![
                ActionView::Send(
                    ServerPacketView::Status(
                        ServerStatusPacketView::Response(
                            StatusResponseView { response: status_info(settings) },
                        ),
                    ),
                ),
            ],
        },
        ClientPacketView::Status(ClientStatusPacket::Ping(ping)) => Decision {
            session,
            actions: seq![
                ActionView::Send(
                    ServerPacketView::Status(
                        ServerStatusPacketView::Pong(StatusPong { payload: ping.payload }),
                    ),
                ),
            ],
        },
        ClientPacketView::Login(ClientLoginPacketView::Start(start)) => on_login_start(
            state,
            session,
            settings,
            start.name,
            fresh_uuid,
            fresh_token,
        ),
        ClientPacketView::Login(ClientLoginPacketView::EncryptionResponse(response)) => if session.verify_token.is_none() {
            disconnect_decision(state, session, "Unexpected encryption response."@)
        } else {
            Decision {
                session,
                actions: seq![
                    ActionView::Decrypt {
                        shared_secret: response.shared_secret,
                        verify_token: response.verify_token,
                    },
                ],
            }
        },
        ClientPacketView::Play(_) => nothing(session),
    }
}

/// What the server does once the answer to its encryption request was
/// decrypted. The token must be the one that was sent and the secret must
/// have sixteen bytes; then encryption is switched on, compression too if
/// the settings ask for it, and the session service is asked about the
/// player. Anything else ends the session with a reason.
pub open spec fn decide_challenge(
    state: State,
    session: SessionView,
    settings: SettingsView,
    shared_secret: Option<Seq<u8>>,
    verify_token: Option<Seq<u8>>,
) -> Decision {
    if session.verify_token.is_some() && verify_token == session.verify_token
        && shared_secret.is_some() && shared_secret.unwrap().len() == BLOCK_LENGTH
        && session.name.is_some() {
        Decision {
            session: SessionView { verify_token: None, ..session },
            actions: seq![ActionView::Encrypt(shared_secret.unwrap())] + compression_actions(
                settings,
            ) + seq![
                ActionView::Authenticate {
                    username: session.name.unwrap(),
                    server_hash: session_hash(
                        Seq::empty(),
                        shared_secret.unwrap(),
                        settings.public_key,
                    ),
                },
            ],
        }
    } else {
        disconnect_decision(state, session, "Invalid encryption challenge response"@)
    }
}

/// What the server does once the session service has answered: with an
/// identity the player enters the play phase, without one the session ends
/// with a reason.
pub open spec fn decide_authenticated(
    state: State,
    session: SessionView,
    settings: SettingsView,
    identity: Option<u128>,
) -> Decision {
    if identity.is_some() && session.name.is_some() {
        Decision {
            session: SessionView { uuid: identity, ..session },
            actions: join_actions(identity.unwrap(), session.name.unwrap(), settings),
        }
    } else {
        disconnect_decision(state, session, "Could not validate session"@)
    }
}

/// What the server does when no packet could be taken from the receive
/// buffer. A packet id that the phase does not know is passed over; a
/// stream that broke off ends the session at once; anything else ends it
/// with a reason.
pub open spec fn decide_receive_error(state: State, session: SessionView, error: ReceiveError) -> Decision {
    match error {
        ReceiveError::Decode(ReadError::InvalidPacketId(_)) => nothing(session),
        ReceiveError::ConnectionClosed => close(session),
        _ => disconnect_decision(state, session, "Bad packet."@),
    }
}

/// What the server does when it is stopped.
pub open spec fn decide_shutdown(state: State, session: SessionView) -> Decision {
    disconnect_decision(state, session, "Server is shutting down."@)
}

/// `Uuid::new_v4` of the crate `uuid`: 128 bits from the random number
/// generator of the system, with the version and variant bits of a random
/// UUID. Nothing is known of the result beforehand.
#[verifier::external_body]
fn random_uuid() -> u128 {
    uuid::Uuid::new_v4().as_u128()
}

/// Whether two runs of bytes are the same.
pub fn same_bytes(a: &[u8], b: &[u8]) -> (same: bool)
    ensures
        same == (a@ == b@),
{
    if a.len() != b.len() {
        return false;
    }
    let mut i: usize = 0;
    while i < a.len()
        invariant
            i <= a@.len(),
            a@.len() == b@.len(),
            a@.take(i as int) == b@.take(i as int),
        decreases a@.len() - i,
    {
        if a[i] != b[i] {
            return false;
        }
        assert(a@.take(i + 1) =~= a@.take(i as int).push(a@[i as int]));
        assert(b@.take(i + 1) =~= b@.take(i as int).push(b@[i as int]));
        i = i + 1;
    }
    assert(a@.take(a@.len() as int) =~= a@);
    assert(b@.take(b@.len() as int) =~= b@);
    true
}

/// The four low-order bytes of a number, most significant first.
pub open spec fn low_bytes(bits: u128) -> Seq<u8> {
    seq![
        (bits / 0x100_0000 % 0x100) as u8,
        (bits / 0x1_0000 % 0x100) as u8,
        (bits / 0x100 % 0x100) as u8,
        (bits % 0x100) as u8,
    ]
}

/// The four low-order bytes of `bits`, most significant first.
pub fn token_of(bits: u128) -> (token: Vec<u8>)
    ensures
        token@ == low_bytes(bits),
        token@.len() == VERIFY_TOKEN_LENGTH,
{
    let b3: u8 = ((bits >> 24) & 0xff) as u8;
    let b2: u8 = ((bits >> 16) & 0xff) as u8;
    let b1: u8 = ((bits >> 8) & 0xff) as u8;
    let b0: u8 = (bits & 0xff) as u8;
    assert(b3 == bits / 0x100_0000 % 0x100 && b2 == bits / 0x1_0000 % 0x100 && b1 == bits / 0x100
        % 0x100 && b0 == bits % 0x100) by (bit_vector)
        requires
            b3 == ((bits >> 24) & 0xff) as u8,
            b2 == ((bits >> 16) & 0xff) as u8,
            b1 == ((bits >> 8) & 0xff) as u8,
            b0 == (bits & 0xff) as u8,
    ;
    let mut token: Vec<u8> = Vec::new();
    token.push(b3);
    token.push(b2);
    token.push(b1);
    token.push(b0);
    assert(token@ =~= low_bytes(bits));
    token
}

/// The keep-alive that is sent on every tick of the play phase.
pub fn keep_alive() -> (packet: ServerPacket)
    ensures
        packet@ == ServerPacketView::Play(ServerPlayPacketView::KeepAlive(KeepAlive { id: 0 })),
{
    ServerPacket::Play(ServerPlayPacket::KeepAlive(KeepAlive { id: 0 }))
}

/// Puts behind `actions` the packet that tells the client why it is turned
/// away, if the phase has one.
fn push_disconnect(actions: &mut Vec<Action>, state: State, reason: &str)
    ensures
        action_views(final(actions)@) == action_views(old(actions)@) + disconnect_actions(
            state,
            reason@,
        ),
{
    match state {
        State::Login => {
            let packet = ServerPacket::Login(
                ServerLoginPacket::Disconnect(
                    LoginDisconnect { reason: Message::new(String::from_str(reason)) },
                ),
            );
            actions.push(Action::Send(packet));
        },
        State::Play => {
            let packet = ServerPacket::Play(
                ServerPlayPacket::Disconnect(
                    Disconnect { reason: Message::new(String::from_str(reason)) },
                ),
            );
            actions.push(Action::Send(packet));
        },
        _ => {},
    }
    assert(action_views(actions@) =~= action_views(old(actions)@) + disconnect_actions(
        state,
        reason@,
    ));
}

/// Puts behind `actions` what switches compression on, if the settings ask
/// for it.
fn push_compression(actions: &mut Vec<Action>, settings: &Settings)
    ensures
        action_views(final(actions)@) == action_views(old(actions)@) + compression_actions(
            settings@,
        ),
{
    match settings.compression_threshold {
        Some(t) => {
            let threshold: i32 = #[verifier::truncate]
            (t as i32);
            actions.push(
                Action::Send(
                    ServerPacket::Login(
                        ServerLoginPacket::SetCompression(
                            SetCompression { threshold: VarInt(threshold) },
                        ),
                    ),
                ),
            );
            actions.push(Action::SetCompression(t));
        },
        None => {},
    }
    assert(action_views(actions@) =~= action_views(old(actions)@) + compression_actions(
        settings@,
    ));
}

/// Puts behind `actions` what ends a login well.
fn push_join(actions: &mut Vec<Action>, uuid: u128, name: &str, settings: &Settings)
    ensures
        action_views(final(actions)@) == action_views(old(actions)@) + join_actions(
            uuid,
            name@,
            settings@,
        ),
{
    let mut world_names: Vec<String> = Vec::new();
    world_names.push(String::from_str("limbo"));
    let world_names = VarIntPrefixedVec(world_names);
    assert(world_names@ =~= seq!["limbo"@]);
    let join = JoinGame {
        entity_id: 0,
        hardcore: true,
        gamemode: GameMode::Survival,
        previous_gamemode: None,
        world_names,
        dimension_codec: RawBytes::new(slice_to_vec(settings.dimension_codec.as_slice())),
        dimension: RawBytes::new(slice_to_vec(settings.dimension.as_slice())),
        world_name: String::from_str("limbo"),
        hashed_seed: 0,
        max_players: VarInt(1),
        view_distance: VarInt(32),
        simulation_distance: VarInt(32),
        reduced_debug_info: false,
        enable_respawn_screen: false,
        debug: false,
        flat: false,
    };
    assert(join@ == join_game(settings@));
    let look = PlayerPositionAndLook {
        x: 0,
        y: SPAWN_HEIGHT_BITS,
        z: 0,
        yaw: 0,
        pitch: 0,
        flags: 0,
        teleport_id: VarInt(0),
        dismount_vehicle: true,
    };
    actions.push(
        Action::Send(
            ServerPacket::Login(
                ServerLoginPacket::Success(LoginSuccess { uuid, name: String::from_str(name) }),
            ),
        ),
    );
    actions.push(Action::SetState(State::Play));
    actions.push(Action::Joined);
    actions.push(Action::Send(ServerPacket::Play(ServerPlayPacket::JoinGame(join))));
    actions.push(
        Action::SendPluginMessage {
            channel: String::from_str("minecraft:brand"),
            text: settings.name.clone(),
        },
    );
    actions.push(
        Action::Send(
            ServerPacket::Play(
                ServerPlayPacket::SpawnPosition(
                    SpawnPosition { location: Position::new(0, 64, 0), angle: 0 },
                ),
            ),
        ),
    );
    actions.push(Action::Send(ServerPacket::Play(ServerPlayPacket::PlayerPositionAndLook(look))));
    assert(action_views(actions@) =~= action_views(old(actions)@) + join_actions(
        uuid,
        name@,
        settings@,
    ));
}

/// The status payload that the settings ask for.
fn status_response(settings: &Settings) -> (info: ServerInfo)
    ensures
        info@ == status_info(settings@),
{
    let players = if settings.hide_player_count {
        None
    } else {
        Some(ServerPlayerInfo::simple(settings.online_players, settings.max_players))
    };
    let favicon: Option<&[u8]> = match &settings.favicon {
        Some(png) => Some(png.as_slice()),
        None => None,
    };
    ServerInfo::new(settings.version, players, Message::new(settings.motd.clone()), favicon)
}

/// Where the performing of a list of actions stands: the connection, the
/// bytes for the socket, and what is left for the embedder to do.
pub struct Performed {
    pub connection: ConnectionView,
    pub wire: Seq<u8>,
    pub requests: Seq<ActionView>,
}

/// The packet that a plugin message with a string payload is sent as.
pub open spec fn plugin_message(channel: Seq<char>, text: Seq<char>) -> ServerPacketView {
    ServerPacketView::Play(
        ServerPlayPacketView::PluginMessage(
            PluginMessageView { channel, data: string_encoding(text) },
        ),
    )
}

/// What sending one packet comes to: its frame, encrypted if encryption is
/// on, goes behind the bytes for the socket, and the cipher moves on.
pub open spec fn sent(p: Performed, packet: ServerPacketView) -> Performed {
    let wire = sealed(
        p.connection.outbound,
        staged_frame(packet.encoding(), p.connection.threshold),
    );
    Performed {
        connection: ConnectionView {
            outbound: moved_on(p.connection.outbound, wire),
            ..p.connection
        },
        wire: p.wire + wire,
        requests: p.requests,
    }
}

/// What performing one action comes to.
pub open spec fn perform_one(p: Performed, action: ActionView) -> Performed {
    match action {
        ActionView::Send(packet) => sent(p, packet),
        ActionView::SendPluginMessage { channel, text } => sent(p, plugin_message(channel, text)),
        ActionView::SetState(state) => Performed {
            connection: ConnectionView { phase: state, ..p.connection },
            ..p
        },
        ActionView::SetCompression(t) => Performed {
            connection: ConnectionView { threshold: Some(t), ..p.connection },
            ..p
        },
        ActionView::Encrypt(secret) => if secret.len() == BLOCK_LENGTH {
            Performed {
                connection: ConnectionView {
                    inbound: Some((secret, secret)),
                    outbound: Some((secret, secret)),
                    ..p.connection
                },
                ..p
            }
        } else {
            p
        },
        _ => Performed { requests: p.requests.push(action), ..p },
    }
}

/// What performing a list of actions comes to, one after the other.
pub open spec fn performed(p: Performed, actions: Seq<ActionView>) -> Performed
    decreases actions.len(),
{
    if actions.len() == 0 {
        p
    } else {
        performed(perform_one(p, actions[0]), actions.skip(1))
    }
}

/// Whether a packet is sure to go out: it can be encoded, and it stays
/// below what a length prefix can carry and below the threshold from which
/// the compressor has a say.
pub open spec fn sure_to_send(connection: ConnectionView, packet: ServerPacketView) -> bool {
    &&& packet.encode_failure().is_none()
    &&& packet.encoding().len() < MAX_LENGTH
    &&& connection.threshold matches Some(t) ==> packet.encoding().len() < t
}

/// Whether one action is sure to be performed.
pub open spec fn sure_to_perform_one(p: Performed, action: ActionView) -> bool {
    match action {
        ActionView::Send(packet) => sure_to_send(p.connection, packet),
        ActionView::SendPluginMessage { channel, text } => encode_utf8(text).len() <= MAX_LENGTH
            && sure_to_send(p.connection, plugin_message(channel, text)),
        _ => true,
    }
}

/// Whether a list of actions is sure to be performed to its end.
pub open spec fn sure_to_perform(p: Performed, actions: Seq<ActionView>) -> bool
    decreases actions.len(),
{
    if actions.len() == 0 {
        true
    } else {
        sure_to_perform_one(p, actions[0]) && sure_to_perform(
            perform_one(p, actions[0]),
            actions.skip(1),
        )
    }
}

/// Phases are one-way: whatever the server decides on a packet that was
/// read in the phase `state`, it moves the conversation only to a later
/// phase.
pub proof fn lemma_phases_move_forward(
    state: State,
    session: SessionView,
    settings: SettingsView,
    packet: ClientPacketView,
    fresh_uuid: u128,
    fresh_token: Seq<u8>,
)
    requires
        packet.state() == state,
    ensures
        forall|i: int|
            #![trigger decide(state, session, settings, packet, fresh_uuid, fresh_token).actions[i]]
            0 <= i < decide(state, session, settings, packet, fresh_uuid, fresh_token).actions.len()
                ==> (decide(
                state,
                session,
                settings,
                packet,
                fresh_uuid,
                fresh_token,
            ).actions[i] matches ActionView::SetState(next) ==> state.spec_id() < next.spec_id()),
{
}

/// Compression and encryption are never switched off: no action takes the
/// threshold or a cipher away from a connection that has one.
pub proof fn lemma_never_switched_off(p: Performed, actions: Seq<ActionView>)
    ensures
        p.connection.threshold.is_some() ==> performed(p, actions).connection.threshold.is_some(),
        p.connection.inbound.is_some() ==> performed(p, actions).connection.inbound.is_some(),
        p.connection.outbound.is_some() ==> performed(p, actions).connection.outbound.is_some(),
    decreases actions.len(),
{
    if actions.len() > 0 {
        lemma_never_switched_off(perform_one(p, actions[0]), actions.skip(1));
    }
}

/// Sends one packet over the connection and puts its bytes behind `wire`.
fn send(connection: &mut Connection, packet: &ServerPacket, wire: &mut Vec<u8>) -> (res: Result<
    (),
    PacketProcessingError,
>)
    ensures
        final(connection)@.buffered == old(connection)@.buffered,
        final(connection)@.inbound == old(connection)@.inbound,
        final(connection)@.limit == old(connection)@.limit,
        res.is_ok() ==> ({
            let before = Performed {
                connection: old(connection)@,
                wire: old(wire)@,
                requests: Seq::empty(),
            };
            &&& final(connection)@ == sent(before, packet@).connection
            &&& final(wire)@ == sent(before, packet@).wire
        }),
        sure_to_send(old(connection)@, packet@) ==> res.is_ok(),
        res.is_err() ==> final(connection)@ == old(connection)@ && final(wire)@ == old(wire)@,
{
    match connection.write_packet(packet) {
        Ok(bytes) => {
            wire.extend_from_slice(bytes.as_slice());
            Ok(())
        },
        Err(e) => Err(PacketProcessingError::Send(e)),
    }
}

/// Performs one action on a connection. A packet is staged and its bytes
/// are put behind `wire`; what is left for the embedder goes behind
/// `requests`.
fn perform_action(
    connection: &mut Connection,
    action: &Action,
    wire: &mut Vec<u8>,
    requests: &mut Vec<Action>,
) -> (res: Result<(), PacketProcessingError>)
    ensures
        final(connection)@.buffered == old(connection)@.buffered,
        final(connection)@.limit == old(connection)@.limit,
        res.is_ok() ==> ({
            let before = Performed {
                connection: old(connection)@,
                wire: old(wire)@,
                requests: action_views(old(requests)@),
            };
            let after = Performed {
                connection: final(connection)@,
                wire: final(wire)@,
                requests: action_views(final(requests)@),
            };
            after == perform_one(before, action@)
        }),
        sure_to_perform_one(
            Performed {
                connection: old(connection)@,
                wire: old(wire)@,
                requests: action_views(old(requests)@),
            },
            action@,
        ) ==> res.is_ok(),
        res.is_err() ==> final(connection)@ == old(connection)@ && final(wire)@ == old(wire)@
            && final(requests)@ == old(requests)@,
{
    let ghost before = action_views(requests@);
    match action {
        Action::Send(packet) => send(connection, packet, wire),
        Action::SendPluginMessage { channel, text } => {
            let mut data: Vec<u8> = Vec::new();
            match write_string(&mut data, text.as_str()) {
                Ok(()) => {},
                Err(e) => {
                    return Err(
                        PacketProcessingError::Send(SendError::Encode(WriteError::Field("data", e))),
                    );
                },
            }
            assert(data@ =~= string_encoding(text@));
            let packet = ServerPacket::Play(
                ServerPlayPacket::PluginMessage(
                    PluginMessage { channel: channel.clone(), data: RawBytes::new(data) },
                ),
            );
            send(connection, &packet, wire)
        },
        Action::SetState(state) => {
            connection.set_state(*state);
            Ok(())
        },
        Action::SetCompression(threshold) => {
            connection.set_compression_threshold(*threshold);
            Ok(())
        },
        Action::Encrypt(secret) => {
            let _ = connection.update_encryption(secret.as_slice());
            Ok(())
        },
        Action::Joined => {
            requests.push(Action::Joined);
            assert(action_views(requests@) =~= before.push(action@));
            Ok(())
        },
        Action::Decrypt { shared_secret, verify_token } => {
            requests.push(
                Action::Decrypt {
                    shared_secret: slice_to_vec(shared_secret.as_slice()),
                    verify_token: slice_to_vec(verify_token.as_slice()),
                },
            );
            assert(action_views(requests@) =~= before.push(action@));
            Ok(())
        },
        Action::Authenticate { username, server_hash } => {
            requests.push(
                Action::Authenticate {
                    username: username.clone(),
                    server_hash: server_hash.clone(),
                },
            );
            assert(action_views(requests@) =~= before.push(action@));
            Ok(())
        },
    }
}

/// Performing one action more is performing the actions before it and then
/// that one.
pub proof fn lemma_performed_step(p: Performed, actions: Seq<ActionView>, i: int)
    requires
        0 <= i < actions.len(),
    ensures
        performed(p, actions.take(i + 1)) == perform_one(
            performed(p, actions.take(i)),
            actions[i],
        ),
    decreases i,
{
    let longer = actions.take(i + 1);
    assert(longer[0] == actions[0]);
    if i == 0 {
        assert(longer.skip(1) =~= Seq::<ActionView>::empty());
        assert(actions.take(0) =~= Seq::<ActionView>::empty());
        assert(performed(perform_one(p, actions[0]), longer.skip(1)) == perform_one(
            p,
            actions[0],
        ));
    } else {
        let shorter = actions.take(i);
        assert(shorter[0] == actions[0]);
        assert(longer.skip(1) =~= actions.skip(1).take(i));
        assert(shorter.skip(1) =~= actions.skip(1).take(i - 1));
        assert(actions.skip(1)[i - 1] == actions[i]);
        lemma_performed_step(perform_one(p, actions[0]), actions.skip(1), i - 1);
    }
}

/// Performs actions on a connection, one after the other: packets are
/// staged, and their bytes are put behind `wire`; the phase, compression
/// and encryption are switched. What is left for the embedder comes back,
/// in its order. The first packet that cannot be staged ends the
/// performing; what was performed before it stays, and `wire` holds what
/// was staged before it.
pub fn perform(connection: &mut Connection, actions: &Vec<Action>, wire: &mut Vec<u8>) -> (res:
    Result<Vec<Action>, PacketProcessingError>)
    ensures
        final(connection)@.buffered == old(connection)@.buffered,
        final(connection)@.limit == old(connection)@.limit,
        res matches Ok(requests) ==> ({
            let end = performed(
                Performed {
                    connection: old(connection)@,
                    wire: old(wire)@,
                    requests: Seq::empty(),
                },
                action_views(actions@),
            );
            &&& final(connection)@ == end.connection
            &&& final(wire)@ == end.wire
            &&& action_views(requests@) == end.requests
        }),
        sure_to_perform(
            Performed { connection: old(connection)@, wire: old(wire)@, requests: Seq::empty() },
            action_views(actions@),
        ) ==> res.is_ok(),
        res.is_err() ==> exists|done: int|
            0 <= done < actions@.len() && ({
                let stopped = #[trigger] performed(
                    Performed {
                        connection: old(connection)@,
                        wire: old(wire)@,
                        requests: Seq::empty(),
                    },
                    action_views(actions@).take(done),
                );
                &&& final(connection)@ == stopped.connection
                &&& final(wire)@ == stopped.wire
            }),
{
    let mut requests: Vec<Action> = Vec::new();
    let ghost views = action_views(actions@);
    let ghost start = Performed {
        connection: old(connection)@,
        wire: old(wire)@,
        requests: Seq::empty(),
    };
    let n = actions.len();
    let mut i: usize = 0;
    proof {
        assert(action_views(requests@) =~= Seq::<ActionView>::empty());
        assert(views.skip(0) =~= views);
        assert(views.take(0) =~= Seq::<ActionView>::empty());
    }
    while i < n
        invariant
            i <= n,
            n == views.len(),
            n == actions@.len(),
            views == action_views(actions@),
            start == (Performed {
                connection: old(connection)@,
                wire: old(wire)@,
                requests: Seq::empty(),
            }),
            connection@.buffered == old(connection)@.buffered,
            connection@.limit == old(connection)@.limit,
            performed(start, views) == performed(
                Performed {
                    connection: connection@,
                    wire: wire@,
                    requests: action_views(requests@),
                },
                views.skip(i as int),
            ),
            sure_to_perform(start, views) ==> sure_to_perform(
                Performed {
                    connection: connection@,
                    wire: wire@,
                    requests: action_views(requests@),
                },
                views.skip(i as int),
            ),
            performed(start, views.take(i as int)) == (Performed {
                connection: connection@,
                wire: wire@,
                requests: action_views(requests@),
            }),
        decreases n - i,
    {
        proof {
            assert(views.skip(i as int)[0] == views[i as int]);
            assert(views[i as int] == actions@[i as int]@);
            assert(views.skip(i as int).skip(1) =~= views.skip(i + 1));
            let here = Performed {
                connection: connection@,
                wire: wire@,
                requests: action_views(requests@),
            };
            assert(sure_to_perform(here, views.skip(i as int)) ==> sure_to_perform_one(
                here,
                views[i as int],
            ));
        }
        match perform_action(connection, &actions[i], wire, &mut requests) {
            Ok(()) => {},
            Err(e) => {
                return Err(e);
            },
        }
        proof {
            lemma_performed_step(start, views, i as int);
        }
        i = i + 1;
    }
    Ok(requests)
}

/// What the server remembers of one client between two packets.
#[derive(Debug)]
pub struct Client {
    disconnected: bool,
    name: Option<String>,
    uuid: Option<u128>,
    verify_token: Option<Vec<u8>>,
}

impl View for Client {
    type V = SessionView;

    closed spec fn view(&self) -> SessionView {
        SessionView {
            disconnected: self.disconnected,
            name: match self.name {
                Some(name) => Some(name@),
                None => None,
            },
            uuid: self.uuid,
            verify_token: match self.verify_token {
                Some(token) => Some(token@),
                None => None,
            },
        }
    }
}

impl Client {
    /// A session at its start: not over, with no name and no identity.
    pub fn new() -> (client: Client)
        ensures
            client@ == (SessionView {
                disconnected: false,
                name: None,
                uuid: None,
                verify_token: None,
            }),
    {
        Client { disconnected: false, name: None, uuid: None, verify_token: None }
    }

    /// Whether the session is over.
    pub fn is_disconnected(&self) -> (over: bool)
        ensures
            over == self@.disconnected,
    {
        self.disconnected
    }

    /// The identity of the player, once it is known.
    pub fn uuid(&self) -> (uuid: Option<u128>)
        ensures
            uuid == self@.uuid,
    {
        self.uuid
    }

    /// The name that the player logged in with.
    pub fn name(&self) -> (name: Option<&str>)
        ensures
            match self@.name {
                Some(n) => name.is_some() && name.unwrap()@ == n,
                None => name.is_none(),
            },
    {
        match &self.name {
            Some(name) => Some(name.as_str()),
            None => None,
        }
    }

    /// Ends the session. In the login and in the play phase the client is
    /// told the reason.
    pub fn disconnect(&mut self, state: State, reason: &str) -> (actions: Vec<Action>)
        ensures
            final(self)@ == disconnect_decision(state, old(self)@, reason@).session,
            action_views(actions@) == disconnect_decision(state, old(self)@, reason@).actions,
    {
        self.disconnected = true;
        let mut actions: Vec<Action> = Vec::new();
        assert(action_views(actions@) =~= Seq::<ActionView>::empty());
        push_disconnect(&mut actions, state, reason);
        assert(Seq::<ActionView>::empty() + disconnect_actions(state, reason@)
            =~= disconnect_actions(state, reason@));
        actions
    }

    /// Decides what to do on a packet of the client in the phase `state`.
    /// `fresh_uuid` is the identity for a player who logs in offline,
    /// `fresh_token` the token for the encryption request in online mode.
    pub fn react(
        &mut self,
        state: State,
        packet: ClientPacket,
        settings: &Settings,
        fresh_uuid: u128,
        fresh_token: Vec<u8>,
    ) -> (actions: Vec<Action>)
        ensures
            final(self)@ == decide(
                state,
                old(self)@,
                settings@,
                packet@,
                fresh_uuid,
                fresh_token@,
            ).session,
            action_views(actions@) == decide(
                state,
                old(self)@,
                settings@,
                packet@,
                fresh_uuid,
                fresh_token@,
            ).actions,
    {
        let mut actions: Vec<Action> = Vec::new();
        assert(action_views(actions@) =~= Seq::<ActionView>::empty());
        let ghost none = Seq::<ActionView>::empty();
        match packet {
            ClientPacket::Handshake(ClientHandshakePacket::Handshake(h)) => {
                match h.next_state {
                    NextState::Login => {
                        actions.push(Action::SetState(State::Login));
                        let requested = h.protocol_version.0;
                        if requested < 0 || requested as usize != settings.version.protocol {
                            self.disconnected = true;
                            let mut reason = String::from_str(
                                "Version mismatch between client and server. Please connect using ",
                            );
                            reason.append(settings.version.name);
                            reason.append(".");
                            push_disconnect(&mut actions, State::Login, reason.as_str());
                        }
                        assert(action_views(actions@) =~= decide(
                            state,
                            old(self)@,
                            settings@,
                            packet@,
                            fresh_uuid,
                            fresh_token@,
                        ).actions);
                    },
                    NextState::Status => {
                        actions.push(Action::SetState(State::Status));
                        if settings.hidden {
                            self.disconnected = true;
                        }
                        assert(action_views(actions@) =~= seq![ActionView::SetState(State::Status)]);
                    },
                }
            },
            ClientPacket::Status(ClientStatusPacket::Request(_)) => {
                let response = status_response(settings);
                actions.push(
                    Action::Send(
                        ServerPacket::Status(
                            ServerStatusPacket::Response(StatusResponse { response }),
                        ),
                    ),
                );
                assert(action_views(actions@) =~= decide(
                    state,
                    old(self)@,
                    settings@,
                    packet@,
                    fresh_uuid,
                    fresh_token@,
                ).actions);
            },
            ClientPacket::Status(ClientStatusPacket::Ping(ping)) => {
                actions.push(
                    Action::Send(
                        ServerPacket::Status(
                            ServerStatusPacket::Pong(StatusPong { payload: ping.payload }),
                        ),
                    ),
                );
                assert(action_views(actions@) =~= decide(
                    state,
                    old(self)@,
                    settings@,
                    packet@,
                    fresh_uuid,
                    fresh_token@,
                ).actions);
            },
            ClientPacket::Login(ClientLoginPacket::Start(start)) => {
                let length = start.name.as_str().unicode_len();
                if self.name.is_some() {
                    self.disconnected = true;
                    push_disconnect(&mut actions, state, "Unexpected login start.");
                    assert(none + disconnect_actions(state, "Unexpected login start."@)
                        =~= disconnect_actions(state, "Unexpected login start."@));
                } else if length == 0 || length > MAX_NAME_LENGTH {
                    self.disconnected = true;
                    push_disconnect(
                        &mut actions,
                        state,
                        "Usernames should be between 1-16 characters long.",
                    );
                    assert(none + disconnect_actions(
                        state,
                        "Usernames should be between 1-16 characters long."@,
                    ) =~= disconnect_actions(
                        state,
                        "Usernames should be between 1-16 characters long."@,
                    ));
                } else if settings.online_mode {
                    let request = EncryptionRequest {
                        server_id: String::new(),
                        public_key: VarIntPrefixedVec(
                            slice_to_vec(settings.public_key.as_slice()),
                        ),
                        verify_token: VarIntPrefixedVec(slice_to_vec(fresh_token.as_slice())),
                    };
                    actions.push(
                        Action::Send(
                            ServerPacket::Login(ServerLoginPacket::EncryptionRequest(request)),
                        ),
                    );
                    self.name = Some(start.name);
                    self.verify_token = Some(fresh_token);
                    assert(action_views(actions@) =~= decide(
                        state,
                        old(self)@,
                        settings@,
                        packet@,
                        fresh_uuid,
                        fresh_token@,
                    ).actions);
                } else {
                    push_compression(&mut actions, settings);
                    push_join(&mut actions, fresh_uuid, start.name.as_str(), settings);
                    self.name = Some(start.name);
                    self.uuid = Some(fresh_uuid);
                    assert(action_views(actions@) =~= compression_actions(settings@)
                        + join_actions(fresh_uuid, start.name@, settings@));
                }
            },
            ClientPacket::Login(ClientLoginPacket::EncryptionResponse(response)) => {
                if self.verify_token.is_none() {
                    self.disconnected = true;
                    push_disconnect(&mut actions, state, "Unexpected encryption response.");
                    assert(none + disconnect_actions(state, "Unexpected encryption response."@)
                        =~= disconnect_actions(state, "Unexpected encryption response."@));
                } else {
                    actions.push(
                        Action::Decrypt {
                            shared_secret: response.shared_secret.0,
                            verify_token: response.verify_token.0,
                        },
                    );
                    assert(action_views(actions@) =~= decide(
                        state,
                        old(self)@,
                        settings@,
                        packet@,
                        fresh_uuid,
                        fresh_token@,
                    ).actions);
                }
            },
            ClientPacket::Play(_) => {},
        }
        actions
    }

    /// Answers a packet of the client: draws a fresh identity and a fresh
    /// token, decides, and performs what was decided on the connection. The
    /// bytes for the socket go behind `wire`; what is left for the embedder
    /// comes back.
    pub fn process_packet(
        &mut self,
        connection: &mut Connection,
        packet: ClientPacket,
        settings: &Settings,
        wire: &mut Vec<u8>,
    ) -> (res: Result<Vec<Action>, PacketProcessingError>)
        ensures
            final(connection)@.buffered == old(connection)@.buffered,
            final(connection)@.limit == old(connection)@.limit,
            exists|fresh_uuid: u128, fresh_token: Seq<u8>|
                fresh_token.len() == VERIFY_TOKEN_LENGTH && ({
                    let decision = #[trigger] decide(
                        old(connection)@.phase,
                        old(self)@,
                        settings@,
                        packet@,
                        fresh_uuid,
                        fresh_token,
                    );
                    let start = Performed {
                        connection: old(connection)@,
                        wire: old(wire)@,
                        requests: Seq::empty(),
                    };
                    &&& final(self)@ == decision.session
                    &&& res matches Ok(requests) ==> final(connection)@ == performed(
                        start,
                        decision.actions,
                    ).connection && final(wire)@ == performed(start, decision.actions).wire
                        && action_views(requests@) == performed(start, decision.actions).requests
                    &&& sure_to_perform(start, decision.actions) ==> res.is_ok()
                }),
    {
        let fresh_uuid = random_uuid();
        let fresh_token = token_of(random_uuid());
        let ghost token = fresh_token@;
        let actions = self.react(connection.state(), packet, settings, fresh_uuid, fresh_token);
        let res = perform(connection, &actions, wire);
        proof {
            let decision = decide(
                old(connection)@.phase,
                old(self)@,
                settings@,
                packet@,
                fresh_uuid,
                token,
            );
            let start = Performed {
                connection: old(connection)@,
                wire: old(wire)@,
                requests: Seq::empty(),
            };
            assert(token.len() == VERIFY_TOKEN_LENGTH && self@ == decision.session && (
            res matches Ok(requests) ==> connection@ == performed(
                start,
                decision.actions,
            ).connection && wire@ == performed(start, decision.actions).wire && action_views(
                requests@,
            ) == performed(start, decision.actions).requests) && (sure_to_perform(
                start,
                decision.actions,
            ) ==> res.is_ok()));
        }
        res
    }

    /// Decides what to do once the answer to the encryption request was
    /// decrypted. A field that could not be decrypted comes as none.
    pub fn challenge_answered(
        &mut self,
        state: State,
        settings: &Settings,
        shared_secret: Option<Vec<u8>>,
        verify_token: Option<Vec<u8>>,
    ) -> (actions: Vec<Action>)
        ensures
            ({
                let decision = decide_challenge(
                    state,
                    old(self)@,
                    settings@,
                    match shared_secret {
                        Some(s) => Some(s@),
                        None => None,
                    },
                    match verify_token {
                        Some(t) => Some(t@),
                        None => None,
                    },
                );
                final(self)@ == decision.session && action_views(actions@) == decision.actions
            }),
    {
        let mut actions: Vec<Action> = Vec::new();
        assert(action_views(actions@) =~= Seq::<ActionView>::empty());
        let ghost none = Seq::<ActionView>::empty();
        let token_matches = match (&self.verify_token, &verify_token) {
            (Some(expected), Some(token)) => same_bytes(expected.as_slice(), token.as_slice()),
            _ => false,
        };
        let username: Option<String> = match &self.name {
            Some(name) => Some(name.clone()),
            None => None,
        };
        match (shared_secret, username) {
            (Some(secret), Some(username)) => {
                if token_matches && secret.len() == BLOCK_LENGTH {
                    let server_hash = hash(
                        "",
                        secret.as_slice(),
                        settings.public_key.as_slice(),
                    );
                    proof {
                        reveal_strlit("");
                        assert(""@ =~= Seq::<char>::empty());
                    }
                    let ghost secret_view = secret@;
                    let ghost username_view = username@;
                    let ghost hash_view = server_hash@;
                    actions.push(Action::Encrypt(secret));
                    assert(action_views(actions@) =~= seq![ActionView::Encrypt(secret_view)]);
                    push_compression(&mut actions, settings);
                    let ghost before = action_views(actions@);
                    actions.push(Action::Authenticate { username, server_hash });
                    assert(action_views(actions@) =~= before.push(
                        ActionView::Authenticate {
                            username: username_view,
                            server_hash: hash_view,
                        },
                    ));
                    assert(username_view == old(self)@.name.unwrap());
                    assert(hash_view == session_hash(
                        Seq::empty(),
                        secret_view,
                        settings@.public_key,
                    ));
                    self.verify_token = None;
                    assert(action_views(actions@) =~= seq![ActionView::Encrypt(secret_view)]
                        + compression_actions(settings@) + seq![
                        ActionView::Authenticate {
                            username: old(self)@.name.unwrap(),
                            server_hash: session_hash(
                                Seq::empty(),
                                secret_view,
                                settings@.public_key,
                            ),
                        },
                    ]);
                    return actions;
                }
            },
            _ => {},
        }
        self.disconnected = true;
        push_disconnect(&mut actions, state, "Invalid encryption challenge response");
        assert(none + disconnect_actions(state, "Invalid encryption challenge response"@)
            =~= disconnect_actions(state, "Invalid encryption challenge response"@));
        actions
    }

    /// Decides what to do once the session service has answered. An
    /// identity means that the player has joined; none means that the
    /// service said no or could not be reached.
    pub fn authenticated(&mut self, state: State, settings: &Settings, identity: Option<u128>) -> (actions: Vec<Action>)
        ensures
            final(self)@ == decide_authenticated(state, old(self)@, settings@, identity).session,
            action_views(actions@) == decide_authenticated(
                state,
                old(self)@,
                settings@,
                identity,
            ).actions,
    {
        let mut actions: Vec<Action> = Vec::new();
        assert(action_views(actions@) =~= Seq::<ActionView>::empty());
        let ghost none = Seq::<ActionView>::empty();
        let username: Option<String> = match &self.name {
            Some(name) => Some(name.clone()),
            None => None,
        };
        match (identity, username) {
            (Some(uuid), Some(name)) => {
                push_join(&mut actions, uuid, name.as_str(), settings);
                self.uuid = Some(uuid);
                assert(none + join_actions(uuid, name@, settings@) =~= join_actions(
                    uuid,
                    name@,
                    settings@,
                ));
            },
            _ => {
                self.disconnected = true;
                push_disconnect(&mut actions, state, "Could not validate session");
                assert(none + disconnect_actions(state, "Could not validate session"@)
                    =~= disconnect_actions(state, "Could not validate session"@));
            },
        }
        actions
    }

    /// Decides what to do when no packet could be taken from the receive
    /// buffer.
    pub fn receive_failed(&mut self, state: State, error: ReceiveError) -> (actions: Vec<Action>)
        ensures
            final(self)@ == decide_receive_error(state, old(self)@, error).session,
            action_views(actions@) == decide_receive_error(state, old(self)@, error).actions,
    {
        let mut actions: Vec<Action> = Vec::new();
        assert(action_views(actions@) =~= Seq::<ActionView>::empty());
        let ghost none = Seq::<ActionView>::empty();
        match error {
            ReceiveError::Decode(ReadError::InvalidPacketId(_)) => {},
            ReceiveError::ConnectionClosed => {
                self.disconnected = true;
            },
            _ => {
                self.disconnected = true;
                push_disconnect(&mut actions, state, "Bad packet.");
                assert(none + disconnect_actions(state, "Bad packet."@) =~= disconnect_actions(
                    state,
                    "Bad packet."@,
                ));
            },
        }
        actions
    }

    /// Decides what to do when the server is stopped.
    pub fn shut_down(&mut self, state: State) -> (actions: Vec<Action>)
        ensures
            final(self)@ == decide_shutdown(state, old(self)@).session,
            action_views(actions@) == decide_shutdown(state, old(self)@).actions,
    {
        self.disconnect(state, "Server is shutting down.")
    }

    /// Notes that the peer closed the stream between two frames.
    pub fn peer_closed(&mut self)
        ensures
            final(self)@ == close(old(self)@).session,
    {
        self.disconnected = true;
    }
}

} // verus!
