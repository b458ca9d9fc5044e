//! What the embedder configures: where the server listens, and what it
//! tells the clients about itself.

use vstd::prelude::*;
use vstd::string::StringExecFns;
use crate::info::PROTOCOL_VERSION;

verus! {

/// How much the server logs.
#[derive(Debug, Clone, Copy, PartialEq, Eq, Structural)]
pub enum LogLevel {
    Off,
    Error,
    Warn,
    Info,
    Debug,
    Trace,
}

/// The threshold from which packets are deflated, unless the configuration
/// says otherwise.
pub const DEFAULT_COMPRESSION_THRESHOLD: usize = 256;

/// The port that the server listens on, unless the configuration says
/// otherwise.
pub const DEFAULT_PORT: u16 = 25565;

/// Where the server listens and how it talks.
#[derive(Debug, Clone, PartialEq, Eq)]
pub struct Server {
    pub host: String,
    pub port: u16,
    pub log_level: LogLevel,
    /// The length from which packets are deflated after the login.
    pub compression_threshold: usize,
    /// The protocol number that clients must speak to log in.
    pub protocol_version: usize,
}

impl Default for Server {
    fn default() -> (server: Server)
        ensures
            server.host@ == "0.0.0.0"@,
            server.port == DEFAULT_PORT,
            server.log_level == LogLevel::Info,
            server.compression_threshold == DEFAULT_COMPRESSION_THRESHOLD,
            server.protocol_version == PROTOCOL_VERSION,
    {
        Server {
            host: String::from_str("0.0.0.0"),
            port: DEFAULT_PORT,
            log_level: LogLevel::Info,
            compression_threshold: DEFAULT_COMPRESSION_THRESHOLD,
            protocol_version: PROTOCOL_VERSION,
        }
    }
}

/// What the server tells the clients about itself.
#[derive(Debug, Clone, PartialEq, Eq)]
pub struct Info {
    /// Whether status requests go unanswered.
    pub hidden: bool,
    pub max_players: isize,
    /// Whether the status payload leaves the player counts out.
    pub hide_player_count: bool,
    pub motd: String,
    /// The brand that the server reports to clients in play.
    pub name: String,
    /// The path of the icon, a PNG file.
    pub icon: String,
    /// The icon once it was read: empty when there is none or when reading
    /// it failed, so that the file is looked at only once.
    pub icon_cache: Option<Vec<u8>>,
}

impl Default for Info {
    fn default() -> (info: Info)
        ensures
            !info.hidden,
            info.max_players == -1,
            !info.hide_player_count,
            info.motd@ == "A Limbo Server"@,
            info.name@ == "Limbo"@,
            info.icon@ == "icon.png"@,
            info.icon_cache.is_none(),
    {
        Info {
            hidden: false,
            max_players: -1,
            hide_player_count: false,
            motd: String::from_str("A Limbo Server"),
            name: String::from_str("Limbo"),
            icon: String::from_str("icon.png"),
            icon_cache: None,
        }
    }
}

impl Info {
    /// The icon that the cache stands for: none while nothing is cached, and
    /// none when the cache is empty.
    pub open spec fn cached_icon(&self) -> Option<Seq<u8>> {
        match self.icon_cache {
            Some(bytes) => if bytes@.len() == 0 {
                None
            } else {
                Some(bytes@)
            },
            None => None,
        }
    }

    /// Whether the icon file has to be read: true until something is cached.
    pub fn needs_icon(&self) -> (needed: bool)
        ensures
            needed == self.icon_cache.is_none(),
    {
        self.icon_cache.is_none()
    }

    /// Caches what reading the icon file gave. A file that is missing or
    /// cannot be read is cached as empty.
    pub fn store_icon(&mut self, read: Option<Vec<u8>>)
        ensures
            final(self).icon_cache.is_some(),
            final(self).icon_cache.unwrap()@ == match read {
                Some(bytes) => bytes@,
                None => Seq::<u8>::empty(),
            },
            final(self).hidden == old(self).hidden,
            final(self).max_players == old(self).max_players,
            final(self).hide_player_count == old(self).hide_player_count,
            final(self).motd == old(self).motd,
            final(self).name == old(self).name,
            final(self).icon == old(self).icon,
    {
        self.icon_cache = Some(
            match read {
                Some(bytes) => bytes,
                None => Vec::new(),
            },
        );
    }

    /// The cached icon, if there is one.
    pub fn icon(&self) -> (icon: Option<&[u8]>)
        ensures
            match self.cached_icon() {
                Some(bytes) => icon.is_some() && icon.unwrap()@ == bytes,
                None => icon.is_none(),
            },
    {
        match &self.icon_cache {
            Some(bytes) => if bytes.len() == 0 {
                None
            } else {
                Some(bytes.as_slice())
            },
            None => None,
        }
    }
}

/// The whole configuration.
#[derive(Debug, Clone, PartialEq, Eq)]
pub struct Config {
    pub server: Server,
    pub info: Info,
}

impl Default for Config {
    fn default() -> (config: Config)
        ensures
            config.server.port == DEFAULT_PORT,
            config.server.compression_threshold == DEFAULT_COMPRESSION_THRESHOLD,
            config.server.protocol_version == PROTOCOL_VERSION,
            config.server.log_level == LogLevel::Info,
            config.server.host@ == "0.0.0.0"@,
            !config.info.hidden,
            config.info.max_players == -1,
            !config.info.hide_player_count,
            config.info.motd@ == "A Limbo Server"@,
            config.info.name@ == "Limbo"@,
            config.info.icon@ == "icon.png"@,
            config.info.icon_cache.is_none(),
    {
        Config { server: Server::default(), info: Info::default() }
    }
}

} // verus!
