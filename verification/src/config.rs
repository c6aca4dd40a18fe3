//! The configuration model: one section per integrated service, and the
//! environment-override rule — a non-empty override value replaces the
//! file's secret, an empty or absent one is ignored. Reading the file and
//! the environment stays outside; this module holds the merged shape and
//! the merge itself.

use vstd::prelude::*;
use crate::engine::EngineConfig;

verus! {

/// The chat connection: token, the one authorized caller, and optionally a
/// guild to register commands in.
pub struct DiscordConfig {
    pub token: String,
    pub owner_id: u64,
    pub guild_id: Option<u64>,
}

/// A server-management service: address and key.
pub struct UnraidConfig {
    pub api_url: String,
    pub api_key: String,
}

/// An assistant backend: address and optional key.
pub struct ClaudeConfig {
    pub api_url: String,
    pub api_key: Option<String>,
}

/// A series manager: address and key.
pub struct SonarrConfig {
    pub api_url: String,
    pub api_key: String,
}

/// A movie manager: address and key.
pub struct RadarrConfig {
    pub api_url: String,
    pub api_key: String,
}

/// An indexer manager: address and key.
pub struct ProwlarrConfig {
    pub api_url: String,
    pub api_key: String,
}

/// One service to health-check.
pub struct ServiceConfig {
    pub name: String,
    pub url: String,
    pub api_key: Option<String>,
    pub key_header: Option<String>,
}

/// The health-check section: a list of services.
pub struct HealthConfig {
    pub services: Vec<ServiceConfig>,
}

/// A torrent manager: address and credentials.
pub struct QbitConfig {
    pub api_url: String,
    pub username: String,
    pub password: String,
}

/// A media server: address and token.
pub struct PlexConfig {
    pub api_url: String,
    pub api_key: String,
}

/// The request workflow's switch.
pub struct RequestConfig {
    pub enabled: bool,
}

/// The notification engine's section.
pub struct NotificationsConfig {
    pub guild_id: u64,
    pub channel_id: Option<u64>,
    pub poll_interval_secs: u64,
    pub temp_threshold: i64,
    pub grabs_channel_id: Option<u64>,
    pub imports_channel_id: Option<u64>,
    pub alerts_channel_id: Option<u64>,
}

/// The notes section: where the vault lives.
pub struct NotesConfig {
    pub vault_path: String,
}

/// The whole configuration: the chat connection plus one optional section
/// per integrated service.
pub struct Config {
    pub discord: DiscordConfig,
    pub unraid: Option<UnraidConfig>,
    pub claude: Option<ClaudeConfig>,
    pub sonarr: Option<SonarrConfig>,
    pub radarr: Option<RadarrConfig>,
    pub prowlarr: Option<ProwlarrConfig>,
    pub health: Option<HealthConfig>,
    pub qbit: Option<QbitConfig>,
    pub plex: Option<PlexConfig>,
    pub request: Option<RequestConfig>,
    pub notifications: Option<NotificationsConfig>,
    pub notes: Option<NotesConfig>,
}

/// The request workflow is on unless switched off.
pub fn default_true() -> (r: bool)
    ensures
        r,
{
    true
}

/// The default interval between engine ticks, in seconds.
pub fn default_poll_interval() -> (r: u64)
    ensures
        r == 60,
{
    60
}

/// The default disk-temperature threshold, in whole degrees.
pub fn default_temp_threshold() -> (r: i64)
    ensures
        r == 50,
{
    50
}

/// The secrets the environment may carry; absent or empty values leave the
/// file's configuration untouched.
pub struct EnvOverrides {
    pub discord_token: Option<String>,
    pub unraid_api_key: Option<String>,
    pub claude_api_key: Option<String>,
    pub sonarr_api_key: Option<String>,
    pub radarr_api_key: Option<String>,
    pub prowlarr_api_key: Option<String>,
    pub qbit_username: Option<String>,
    pub qbit_password: Option<String>,
    pub plex_api_key: Option<String>,
}

/// What a string field holds after an override: the override's value when
/// it is present and non-empty, the current value otherwise.
pub open spec fn spec_override(cur: Seq<char>, ov: Option<String>) -> Seq<char> {
    match ov {
        Some(v) => if v@.len() > 0 {
            v@
        } else {
            cur
        },
        None => cur,
    }
}

/// What an optional string field holds after an override.
pub open spec fn spec_override_opt(cur: Option<Seq<char>>, ov: Option<String>) -> Option<
    Seq<char>,
> {
    match ov {
        Some(v) => if v@.len() > 0 {
            Some(v@)
        } else {
            cur
        },
        None => cur,
    }
}

/// The ghost shape of an optional string.
pub open spec fn opt_view(o: Option<String>) -> Option<Seq<char>> {
    match o {
        Some(s) => Some(s@),
        None => None,
    }
}

fn apply_str(field: &mut String, ov: &Option<String>)
    ensures
        final(field)@ == spec_override(old(field)@, *ov),
{
    match ov {
        Some(v) => {
            if !v.as_str().is_empty() {
                *field = v.clone();
            }
        },
        None => {},
    }
}

impl Config {
    /// Replace each secret with its environment override where one is set
    /// and non-empty; everything else, each section's presence included,
    /// stays as it was.
    pub fn apply_env_overrides(&mut self, ov: &EnvOverrides)
        ensures
            final(self).discord.token@ == spec_override(old(self).discord.token@, ov.discord_token),
            final(self).discord.owner_id == old(self).discord.owner_id,
            final(self).discord.guild_id == old(self).discord.guild_id,
            old(self).unraid is None ==> final(self).unraid is None,
            old(self).unraid matches Some(u) ==> (final(self).unraid matches Some(u2)
                && u2.api_url@ == u.api_url@ && u2.api_key@ == spec_override(
                u.api_key@,
                ov.unraid_api_key,
            )),
            old(self).claude is None ==> final(self).claude is None,
            old(self).claude matches Some(c) ==> (final(self).claude matches Some(c2)
                && c2.api_url@ == c.api_url@ && opt_view(c2.api_key) == spec_override_opt(
                opt_view(c.api_key),
                ov.claude_api_key,
            )),
            old(self).sonarr is None ==> final(self).sonarr is None,
            old(self).sonarr matches Some(s) ==> (final(self).sonarr matches Some(s2)
                && s2.api_url@ == s.api_url@ && s2.api_key@ == spec_override(
                s.api_key@,
                ov.sonarr_api_key,
            )),
            old(self).radarr is None ==> final(self).radarr is None,
            old(self).radarr matches Some(s) ==> (final(self).radarr matches Some(s2)
                && s2.api_url@ == s.api_url@ && s2.api_key@ == spec_override(
                s.api_key@,
                ov.radarr_api_key,
            )),
            old(self).prowlarr is None ==> final(self).prowlarr is None,
            old(self).prowlarr matches Some(s) ==> (final(self).prowlarr matches Some(s2)
                && s2.api_url@ == s.api_url@ && s2.api_key@ == spec_override(
                s.api_key@,
                ov.prowlarr_api_key,
            )),
            old(self).qbit is None ==> final(self).qbit is None,
            old(self).qbit matches Some(q) ==> (final(self).qbit matches Some(q2)
                && q2.api_url@ == q.api_url@ && q2.username@ == spec_override(
                q.username@,
                ov.qbit_username,
            ) && q2.password@ == spec_override(q.password@, ov.qbit_password)),
            old(self).plex is None ==> final(self).plex is None,
            old(self).plex matches Some(p) ==> (final(self).plex matches Some(p2)
                && p2.api_url@ == p.api_url@ && p2.api_key@ == spec_override(
                p.api_key@,
                ov.plex_api_key,
            )),
            final(self).health == old(self).health,
            final(self).request == old(self).request,
            final(self).notifications == old(self).notifications,
            final(self).notes == old(self).notes,
    {
        apply_str(&mut self.discord.token, &ov.discord_token);
        match &mut self.unraid {
            Some(u) => apply_str(&mut u.api_key, &ov.unraid_api_key),
            None => {},
        }
        match &mut self.claude {
            Some(c) => {
                match &ov.claude_api_key {
                    Some(v) => {
                        if !v.as_str().is_empty() {
                            c.api_key = Some(v.clone());
                        }
                    },
                    None => {},
                }
            },
            None => {},
        }
        match &mut self.sonarr {
            Some(s) => apply_str(&mut s.api_key, &ov.sonarr_api_key),
            None => {},
        }
        match &mut self.radarr {
            Some(s) => apply_str(&mut s.api_key, &ov.radarr_api_key),
            None => {},
        }
        match &mut self.prowlarr {
            Some(s) => apply_str(&mut s.api_key, &ov.prowlarr_api_key),
            None => {},
        }
        match &mut self.qbit {
            Some(q) => {
                apply_str(&mut q.username, &ov.qbit_username);
                apply_str(&mut q.password, &ov.qbit_password);
            },
            None => {},
        }
        match &mut self.plex {
            Some(p) => apply_str(&mut p.api_key, &ov.plex_api_key),
            None => {},
        }
    }
}

/// Everything the notification engine is started with: interval, threshold,
/// the configured sources, and where events may be posted.
pub struct NotificationStarter {
    pub guild_id: Option<u64>,
    pub poll_interval_secs: u64,
    pub temp_threshold: i64,
    pub sonarr: Option<(String, String)>,
    pub radarr: Option<(String, String)>,
    pub unraid: Option<(String, String)>,
    pub grabs_channel_id: Option<u64>,
    pub imports_channel_id: Option<u64>,
    pub alerts_channel_id: Option<u64>,
    pub fallback_channel_id: Option<u64>,
}

/// The ghost shape of an optional service address-and-key pair.
pub open spec fn pair_view(o: Option<(String, String)>) -> Option<(Seq<char>, Seq<char>)> {
    match o {
        Some(p) => Some((p.0@, p.1@)),
        None => None,
    }
}

fn clone_pair(url: &String, key: &String) -> (r: (String, String))
    ensures
        r.0@ == url@,
        r.1@ == key@,
{
    (url.clone(), key.clone())
}

/// Gather what the engine needs from the configuration: `None` when no
/// notifications section is configured, otherwise the section's settings
/// and the address-and-key of each configured source.
pub fn build_notification_starter(cfg: &Config) -> (r: Option<NotificationStarter>)
    ensures
        cfg.notifications is None <==> r is None,
        cfg.notifications matches Some(n) ==> (r matches Some(st) && {
            &&& st.guild_id == Some(n.guild_id)
            &&& st.poll_interval_secs == n.poll_interval_secs
            &&& st.temp_threshold == n.temp_threshold
            &&& st.grabs_channel_id == n.grabs_channel_id
            &&& st.imports_channel_id == n.imports_channel_id
            &&& st.alerts_channel_id == n.alerts_channel_id
            &&& st.fallback_channel_id == n.channel_id
            &&& (cfg.sonarr is None <==> st.sonarr is None)
            &&& (cfg.sonarr matches Some(s) ==> pair_view(st.sonarr) == Some(
                (s.api_url@, s.api_key@),
            ))
            &&& (cfg.radarr is None <==> st.radarr is None)
            &&& (cfg.radarr matches Some(s) ==> pair_view(st.radarr) == Some(
                (s.api_url@, s.api_key@),
            ))
            &&& (cfg.unraid is None <==> st.unraid is None)
            &&& (cfg.unraid matches Some(s) ==> pair_view(st.unraid) == Some(
                (s.api_url@, s.api_key@),
            ))
        }),
{
    let n = match &cfg.notifications {
        Some(n) => n,
        None => {
            return None;
        },
    };
    let sonarr = match &cfg.sonarr {
        Some(s) => Some(clone_pair(&s.api_url, &s.api_key)),
        None => None,
    };
    let radarr = match &cfg.radarr {
        Some(s) => Some(clone_pair(&s.api_url, &s.api_key)),
        None => None,
    };
    let unraid = match &cfg.unraid {
        Some(s) => Some(clone_pair(&s.api_url, &s.api_key)),
        None => None,
    };
    Some(
        NotificationStarter {
            guild_id: Some(n.guild_id),
            poll_interval_secs: n.poll_interval_secs,
            temp_threshold: n.temp_threshold,
            sonarr,
            radarr,
            unraid,
            grabs_channel_id: n.grabs_channel_id,
            imports_channel_id: n.imports_channel_id,
            alerts_channel_id: n.alerts_channel_id,
            fallback_channel_id: n.channel_id,
        },
    )
}

impl NotificationStarter {
    /// The engine's slice of the starter: interval, threshold and sources.
    pub fn engine_config(&self) -> (r: EngineConfig)
        ensures
            r.poll_interval_secs == self.poll_interval_secs,
            r.temp_threshold == self.temp_threshold,
            pair_view(r.sonarr) == pair_view(self.sonarr),
            pair_view(r.radarr) == pair_view(self.radarr),
            pair_view(r.unraid) == pair_view(self.unraid),
            r.sonarr is Some <==> self.sonarr is Some,
            r.radarr is Some <==> self.radarr is Some,
            r.unraid is Some <==> self.unraid is Some,
    {
        let sonarr = match &self.sonarr {
            Some(p) => Some(clone_pair(&p.0, &p.1)),
            None => None,
        };
        let radarr = match &self.radarr {
            Some(p) => Some(clone_pair(&p.0, &p.1)),
            None => None,
        };
        let unraid = match &self.unraid {
            Some(p) => Some(clone_pair(&p.0, &p.1)),
            None => None,
        };
        EngineConfig {
            poll_interval_secs: self.poll_interval_secs,
            temp_threshold: self.temp_threshold,
            sonarr,
            radarr,
            unraid,
        }
    }
}

} // verus!
