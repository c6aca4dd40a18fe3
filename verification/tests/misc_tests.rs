use discord_assist::config::{
    build_notification_starter, default_poll_interval, default_temp_threshold, default_true,
    Config, DiscordConfig, EnvOverrides, NotificationsConfig, QbitConfig, SonarrConfig,
};
use discord_assist::health::{health_line, health_report, HealthOutcome, ServiceTarget};
use discord_assist::qbit::{find_torrent_hash, login_succeeded, TorrentInfo};
use discord_assist::resolver::{
    choose_channel, find_channel, find_notifications_category, ChannelChoice, ChannelInfo,
};
use discord_assist::unraid::{
    action_succeeded_message, find_container_id, mutation_query, DockerContainer,
};

fn minimal_config() -> Config {
    Config {
        discord: DiscordConfig {
            token: "file-token".to_string(),
            owner_id: 1,
            guild_id: None,
        },
        unraid: None,
        claude: None,
        sonarr: Some(SonarrConfig {
            api_url: "http://sonarr".to_string(),
            api_key: "file-key".to_string(),
        }),
        radarr: None,
        prowlarr: None,
        health: None,
        qbit: Some(QbitConfig {
            api_url: "http://qbit".to_string(),
            username: "admin".to_string(),
            password: "pw".to_string(),
        }),
        plex: None,
        request: None,
        notifications: Some(NotificationsConfig {
            guild_id: 1234567890,
            channel_id: None,
            poll_interval_secs: default_poll_interval(),
            temp_threshold: default_temp_threshold(),
            grabs_channel_id: None,
            imports_channel_id: None,
            alerts_channel_id: None,
        }),
        notes: None,
    }
}

fn no_overrides() -> EnvOverrides {
    EnvOverrides {
        discord_token: None,
        unraid_api_key: None,
        claude_api_key: None,
        sonarr_api_key: None,
        radarr_api_key: None,
        prowlarr_api_key: None,
        qbit_username: None,
        qbit_password: None,
        plex_api_key: None,
    }
}

#[test]
fn env_override_replaces_token() {
    let mut cfg = minimal_config();
    let mut ov = no_overrides();
    ov.discord_token = Some("env-token".to_string());
    cfg.apply_env_overrides(&ov);
    assert_eq!(cfg.discord.token, "env-token");
}

#[test]
fn env_override_empty_value_is_ignored() {
    let mut cfg = minimal_config();
    let mut ov = no_overrides();
    ov.discord_token = Some("".to_string());
    cfg.apply_env_overrides(&ov);
    assert_eq!(cfg.discord.token, "file-token");
}

#[test]
fn env_override_reaches_section_key() {
    let mut cfg = minimal_config();
    let mut ov = no_overrides();
    ov.sonarr_api_key = Some("env-key".to_string());
    cfg.apply_env_overrides(&ov);
    assert_eq!(cfg.sonarr.unwrap().api_key, "env-key");
}

#[test]
fn env_override_without_section_changes_nothing() {
    let mut cfg = minimal_config();
    let mut ov = no_overrides();
    ov.radarr_api_key = Some("env-key".to_string());
    cfg.apply_env_overrides(&ov);
    assert!(cfg.radarr.is_none());
}

#[test]
fn defaults_match_documentation() {
    assert!(default_true());
    assert_eq!(default_poll_interval(), 60);
    assert_eq!(default_temp_threshold(), 50);
}

#[test]
fn starter_gathers_configured_sources() {
    let cfg = minimal_config();
    let st = build_notification_starter(&cfg).expect("notifications are configured");
    assert_eq!(st.guild_id, Some(1234567890));
    assert_eq!(st.poll_interval_secs, 60);
    assert_eq!(st.temp_threshold, 50);
    assert_eq!(st.sonarr, Some(("http://sonarr".to_string(), "file-key".to_string())));
    assert!(st.radarr.is_none());
    assert!(st.unraid.is_none());
    assert!(st.fallback_channel_id.is_none());
    let ec = st.engine_config();
    assert_eq!(ec.poll_interval_secs, 60);
    assert!(ec.sonarr.is_some());

    let mut cfg = minimal_config();
    cfg.notifications = None;
    assert!(build_notification_starter(&cfg).is_none());
}

#[test]
fn login_body_interpretation() {
    assert!(login_succeeded("Ok."));
    assert!(!login_succeeded("Fails."));
}

fn torrent(name: &str, hash: &str) -> TorrentInfo {
    TorrentInfo {
        name: name.to_string(),
        hash: hash.to_string(),
        state: "downloading".to_string(),
        size: None,
        dlspeed: None,
    }
}

#[test]
fn torrent_lookup_needs_one_match() {
    let ts = vec![
        torrent("Ubuntu ISO", "h1"),
        torrent("Debian ISO", "h2"),
        torrent("ubuntu server", "h3"),
    ];
    assert_eq!(find_torrent_hash(&ts, "debian").unwrap(), "h2");
    let err = find_torrent_hash(&ts, "ubuntu").unwrap_err();
    assert_eq!(err.detail(), "2 torrents match \"ubuntu\" — be more specific");
    let err = find_torrent_hash(&ts, "fedora").unwrap_err();
    assert_eq!(err.detail(), "No torrent matching \"fedora\"");
}

#[test]
fn health_lines_and_report() {
    let _svc = ServiceTarget {
        name: "Sonarr".to_string(),
        url: "http://sonarr/ping".to_string(),
        api_key: None,
        key_header: None,
    };
    assert_eq!(health_line("Sonarr", &HealthOutcome::Up(12)), "- Sonarr: [UP] (12ms)");
    assert_eq!(
        health_line("Radarr", &HealthOutcome::HttpDown(503)),
        "- Radarr: [DOWN] (HTTP 503)"
    );
    assert_eq!(health_line("Plex", &HealthOutcome::Timeout), "- Plex: [DOWN] (timeout)");
    assert_eq!(
        health_line("Qbit", &HealthOutcome::ConnError),
        "- Qbit: [DOWN] (connection error)"
    );
    let lines = vec![
        "- Sonarr: [UP] (12ms)".to_string(),
        "- Plex: [DOWN] (timeout)".to_string(),
    ];
    assert_eq!(
        health_report(&lines),
        "**Service Health**\n- Sonarr: [UP] (12ms)\n- Plex: [DOWN] (timeout)"
    );
    assert_eq!(health_report(&Vec::new()), "**Service Health**");
}

fn channel(id: u64, name: &str, is_category: bool, parent: Option<u64>) -> ChannelInfo {
    ChannelInfo {
        id,
        name: name.to_string(),
        is_category,
        parent_id: parent,
    }
}

#[test]
fn resolver_finds_or_requests_creation() {
    let listing = vec![
        channel(1, "general", false, None),
        channel(2, "NOTIFICATIONS", true, None),
        channel(3, "media-grabs", false, Some(2)),
    ];
    assert_eq!(find_notifications_category(&listing), Some(2));
    assert_eq!(find_channel(&listing, &"media-grabs".to_string(), 2), Some(3));
    assert_eq!(find_channel(&listing, &"media-imports".to_string(), 2), None);
    assert_eq!(choose_channel(Some(9), Some(3)), ChannelChoice::Use(9));
    assert_eq!(choose_channel(None, Some(3)), ChannelChoice::Use(3));
    assert_eq!(choose_channel(None, None), ChannelChoice::CreateNeeded);

    let bare = vec![channel(1, "general", false, None)];
    assert_eq!(find_notifications_category(&bare), None);
}

#[test]
fn container_lookup_ignores_ascii_case() {
    let containers = vec![
        DockerContainer {
            names: vec!["/Plex".to_string()],
            status: "Up 2 weeks".to_string(),
            state: "RUNNING".to_string(),
            id: "abc123".to_string(),
        },
        DockerContainer {
            names: vec!["/sonarr".to_string()],
            status: "Up 2 weeks".to_string(),
            state: "RUNNING".to_string(),
            id: "def456".to_string(),
        },
    ];
    assert_eq!(containers[0].display_name(), "Plex");
    assert_eq!(containers[1].display_name(), "sonarr");
    assert_eq!(find_container_id(&containers, "plex"), Some("abc123".to_string()));
    assert_eq!(find_container_id(&containers, "SONARR"), Some("def456".to_string()));
    assert_eq!(find_container_id(&containers, "radarr"), None);
}

#[test]
fn mutation_text_and_result() {
    assert_eq!(
        mutation_query("docker", "start"),
        "mutation($id: PrefixedID!) { docker { start(id: $id) } }"
    );
    assert_eq!(
        mutation_query("vm", "stop"),
        "mutation($id: PrefixedID!) { vm { stop(id: $id) } }"
    );
    assert_eq!(action_succeeded_message("start"), "start succeeded");
}
