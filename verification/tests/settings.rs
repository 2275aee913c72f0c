use craft_worker::config::configuration;
use craft_worker::settings::{Bounded, EnvValue, Environment, Settings, SettingsError, Variable};

fn unset() -> Environment {
    Environment {
        view_distance: EnvValue::Unset,
        simulation_distance: EnvValue::Unset,
        motd: EnvValue::Unset,
        world_seed: EnvValue::Unset,
        max_players: EnvValue::Unset,
        compression_threshold: EnvValue::Unset,
        compression_level: EnvValue::Unset,
        idle_timeout_seconds: EnvValue::Unset,
    }
}

fn text(s: &str) -> EnvValue {
    EnvValue::Text(s.to_string())
}

fn defaults() -> Settings {
    Settings {
        view_distance: 4,
        simulation_distance: 3,
        max_players: 20,
        compression_threshold: 512,
        compression_level: 1,
        idle_timeout_seconds: 10,
        motd: "Minecraft on Cloudflare Workers".to_string(),
        seed: None,
    }
}

#[test]
fn unset_variables_give_the_documented_defaults() {
    assert_eq!(Settings::from_vars(&unset()), Ok(defaults()));
}

#[test]
fn set_variables_are_parsed() {
    let env = Environment {
        view_distance: text("5"),
        simulation_distance: text("+3"),
        motd: text("Hello"),
        world_seed: text("1789200079352125165"),
        max_players: text("1000"),
        compression_threshold: text("-1"),
        compression_level: text("9"),
        idle_timeout_seconds: text("0"),
    };
    assert_eq!(
        Settings::from_vars(&env),
        Ok(Settings {
            view_distance: 5,
            simulation_distance: 3,
            max_players: 1000,
            compression_threshold: -1,
            compression_level: 9,
            idle_timeout_seconds: 0,
            motd: "Hello".to_string(),
            seed: Some("1789200079352125165".to_string()),
        })
    );
}

#[test]
fn integers_outside_their_range_are_refused() {
    let cases = [
        ("1", "33", Bounded::ViewDistance),
    ];
    for (low, high, var) in cases {
        for raw in [low, high] {
            let mut env = unset();
            env.view_distance = text(raw);
            assert_eq!(Settings::from_vars(&env), Err(SettingsError::OutOfRange(var)));
        }
    }
    let mut env = unset();
    env.max_players = text("0");
    assert_eq!(
        Settings::from_vars(&env),
        Err(SettingsError::OutOfRange(Bounded::MaxPlayers))
    );
    let mut env = unset();
    env.compression_threshold = text("2097153");
    assert_eq!(
        Settings::from_vars(&env),
        Err(SettingsError::OutOfRange(Bounded::CompressionThreshold))
    );
    let mut env = unset();
    env.compression_threshold = text("2097152");
    assert_eq!(Settings::from_vars(&env).map(|s| s.compression_threshold), Ok(2097152));
    let mut env = unset();
    env.compression_level = text("10");
    assert_eq!(
        Settings::from_vars(&env),
        Err(SettingsError::OutOfRange(Bounded::CompressionLevel))
    );
    let mut env = unset();
    env.idle_timeout_seconds = text("31");
    assert_eq!(
        Settings::from_vars(&env),
        Err(SettingsError::OutOfRange(Bounded::IdleTimeoutSeconds))
    );
}

#[test]
fn non_integer_text_is_refused() {
    for raw in ["", " 4", "4 ", "four", "4.0", "+", "-", "0x4", "99999999999999999999"] {
        let mut env = unset();
        env.view_distance = text(raw);
        assert_eq!(
            Settings::from_vars(&env),
            Err(SettingsError::OutOfRange(Bounded::ViewDistance)),
            "{raw:?}"
        );
    }
    let mut env = unset();
    env.view_distance = text("0004");
    assert_eq!(Settings::from_vars(&env).map(|s| s.view_distance), Ok(4));
}

#[test]
fn simulation_may_not_exceed_view() {
    let mut env = unset();
    env.view_distance = text("3");
    env.simulation_distance = text("4");
    assert_eq!(Settings::from_vars(&env), Err(SettingsError::SimulationExceedsView));
    env.simulation_distance = text("3");
    assert_eq!(Settings::from_vars(&env).map(|s| s.simulation_distance), Ok(3));
}

#[test]
fn motd_must_be_short_and_not_blank() {
    for raw in ["", "   ", "\t\n", "\u{3000}\u{a0}"] {
        let mut env = unset();
        env.motd = text(raw);
        assert_eq!(Settings::from_vars(&env), Err(SettingsError::MotdLength), "{raw:?}");
    }
    let mut env = unset();
    env.motd = text(&"a".repeat(513));
    assert_eq!(Settings::from_vars(&env), Err(SettingsError::MotdLength));
    env.motd = text(&"a".repeat(512));
    assert!(Settings::from_vars(&env).is_ok());
    env.motd = text(&"é".repeat(257));
    assert_eq!(Settings::from_vars(&env), Err(SettingsError::MotdLength));
    env.motd = text(" x ");
    assert_eq!(Settings::from_vars(&env).map(|s| s.motd), Ok(" x ".to_string()));
}

#[test]
fn seed_must_be_short_and_not_blank() {
    let mut env = unset();
    env.world_seed = text(" ");
    assert_eq!(Settings::from_vars(&env), Err(SettingsError::SeedLength));
    env.world_seed = text(&"1".repeat(257));
    assert_eq!(Settings::from_vars(&env), Err(SettingsError::SeedLength));
    env.world_seed = text(&"1".repeat(256));
    assert!(Settings::from_vars(&env).is_ok());
}

#[test]
fn unreadable_and_non_text_variables_are_reported() {
    let mut env = unset();
    env.motd = EnvValue::Unreadable;
    assert_eq!(
        Settings::from_vars(&env),
        Err(SettingsError::Unreadable(Variable::Motd))
    );
    let mut env = unset();
    env.idle_timeout_seconds = EnvValue::NotText;
    assert_eq!(
        Settings::from_vars(&env),
        Err(SettingsError::NotText(Variable::IdleTimeoutSeconds))
    );
}

#[test]
fn the_first_error_in_reading_order_is_reported() {
    let mut env = unset();
    env.world_seed = EnvValue::NotText;
    env.view_distance = text("1");
    env.max_players = EnvValue::Unreadable;
    assert_eq!(
        Settings::from_vars(&env),
        Err(SettingsError::OutOfRange(Bounded::ViewDistance))
    );
    env.view_distance = EnvValue::Unset;
    assert_eq!(
        Settings::from_vars(&env),
        Err(SettingsError::NotText(Variable::WorldSeed))
    );
    env.world_seed = EnvValue::Unset;
    assert_eq!(
        Settings::from_vars(&env),
        Err(SettingsError::Unreadable(Variable::MaxPlayers))
    );
}

#[test]
fn error_messages() {
    assert_eq!(
        SettingsError::Unreadable(Variable::ViewDistance).message(),
        "VIEW_DISTANCE is unreadable"
    );
    assert_eq!(
        SettingsError::NotText(Variable::WorldSeed).message(),
        "WORLD_SEED must be a string"
    );
    assert_eq!(
        SettingsError::OutOfRange(Bounded::MaxPlayers).message(),
        "MAX_PLAYERS must be an integer between 1 and 1000"
    );
    assert_eq!(
        SettingsError::OutOfRange(Bounded::CompressionThreshold).message(),
        "COMPRESSION_THRESHOLD must be an integer between -1 and 2097152"
    );
    assert_eq!(
        SettingsError::SimulationExceedsView.message(),
        "SIMULATION_DISTANCE must not exceed VIEW_DISTANCE"
    );
    assert_eq!(
        SettingsError::MotdLength.message(),
        "MOTD must contain between 1 and 512 characters"
    );
    assert_eq!(
        SettingsError::SeedLength.message(),
        "WORLD_SEED must be a nonempty string of at most 256 characters"
    );
    assert_eq!(Variable::IdleTimeoutSeconds.name(), "IDLE_TIMEOUT_SECONDS");
}

#[test]
fn configuration_follows_the_settings() {
    let mut settings = defaults();
    settings.seed = Some("42".to_string());
    let config = configuration(&settings);
    assert_eq!(config.level_name, "world");
    assert_eq!(config.seed.as_deref(), Some("42"));
    assert!(!config.online_mode && !config.encryption);
    assert_eq!(config.view_distance, 4);
    assert_eq!(config.simulation_distance, 3);
    assert_eq!(config.max_players, 20);
    assert_eq!(config.motd, "Minecraft on Cloudflare Workers");
    assert!(!config.bedrock_enabled && !config.bedrock_online_mode);
    assert!(!config.bedrock_authentication && !config.query_enabled);
    assert!(!config.rcon_enabled && !config.lan_broadcast_enabled);
    assert!(!config.plugins_enabled && !config.console_input);
    assert!(config.compression_enabled);
    assert_eq!(config.compression_threshold, 512);
    assert_eq!(config.compression_level, 1);
    assert!(config.logging_enabled);
    assert_eq!(config.log_file, "");
    assert_eq!(config.log_level, "info");
    assert!(!config.log_timestamp && !config.log_color);
}

#[test]
fn negative_threshold_disables_compression() {
    let mut settings = defaults();
    settings.compression_threshold = -1;
    let config = configuration(&settings);
    assert!(!config.compression_enabled);
    assert_eq!(config.compression_threshold, 0);
    assert!(config.seed.is_none());
    settings.compression_threshold = 0;
    let config = configuration(&settings);
    assert!(config.compression_enabled);
    assert_eq!(config.compression_threshold, 0);
}
