//! The server configuration that a world's settings give: an offline Java
//! server with a bounded view distance, with every native transport, plugins
//! and console input switched off, logging to the host console only.

use vstd::prelude::*;
use crate::settings::Settings;

verus! {

/// The server configuration, as the values that the server is given.
pub struct ServerConfig {
    /// The world's directory name.
    pub level_name: String,
    /// The seed for a new world; `None` keeps the server's default. An
    /// existing world keeps the seed stored with it.
    pub seed: Option<String>,
    pub online_mode: bool,
    pub encryption: bool,
    /// Never zero.
    pub view_distance: u8,
    /// Never zero.
    pub simulation_distance: u8,
    pub max_players: u32,
    pub motd: String,
    pub bedrock_enabled: bool,
    pub bedrock_online_mode: bool,
    pub bedrock_authentication: bool,
    pub query_enabled: bool,
    pub rcon_enabled: bool,
    pub lan_broadcast_enabled: bool,
    pub plugins_enabled: bool,
    pub console_input: bool,
    pub compression_enabled: bool,
    pub compression_threshold: u32,
    pub compression_level: u32,
    pub logging_enabled: bool,
    /// The log file; empty for none.
    pub log_file: String,
    pub log_level: String,
    pub log_timestamp: bool,
    pub log_color: bool,
}

/// The server configuration for `settings`. A negative compression threshold
/// disables packet compression.
pub fn configuration(settings: &Settings) -> (config: ServerConfig)
    requires
        settings.view_distance >= 1,
        settings.simulation_distance >= 1,
    ensures
        config.level_name@ == "world"@,
        match settings.seed {
            Some(s) => config.seed matches Some(c) && c@ == s@,
            None => config.seed is None,
        },
        !config.online_mode,
        !config.encryption,
        config.view_distance == settings.view_distance,
        config.simulation_distance == settings.simulation_distance,
        config.max_players == settings.max_players,
        config.motd@ == settings.motd@,
        !config.bedrock_enabled,
        !config.bedrock_online_mode,
        !config.bedrock_authentication,
        !config.query_enabled,
        !config.rcon_enabled,
        !config.lan_broadcast_enabled,
        !config.plugins_enabled,
        !config.console_input,
        config.compression_enabled == (settings.compression_threshold >= 0),
        config.compression_threshold == if settings.compression_threshold >= 0 {
            settings.compression_threshold as u32
        } else {
            0
        },
        config.compression_level == settings.compression_level,
        config.logging_enabled,
        config.log_file@ == Seq::<char>::empty(),
        config.log_level@ == "info"@,
        !config.log_timestamp,
        !config.log_color,
{
    let seed = match &settings.seed {
        Some(s) => Some(s.clone()),
        None => None,
    };
    let threshold: i32 = if settings.compression_threshold >= 0 {
        settings.compression_threshold
    } else {
        0
    };
    ServerConfig {
        level_name: String::from_str("world"),
        seed,
        online_mode: false,
        encryption: false,
        view_distance: settings.view_distance,
        simulation_distance: settings.simulation_distance,
        max_players: settings.max_players,
        motd: settings.motd.clone(),
        bedrock_enabled: false,
        bedrock_online_mode: false,
        bedrock_authentication: false,
        query_enabled: false,
        rcon_enabled: false,
        lan_broadcast_enabled: false,
        plugins_enabled: false,
        console_input: false,
        compression_enabled: settings.compression_threshold >= 0,
        compression_threshold: threshold as u32,
        compression_level: settings.compression_level,
        logging_enabled: true,
        log_file: String::new(),
        log_level: String::from_str("info"),
        log_timestamp: false,
        log_color: false,
    }
}

} // verus!
