use discord_assist::engine::{startup_plan, Engine, EngineConfig, PollInput, StartupPlan};
use discord_assist::events::{alias_map, DestinationMap, NotificationCategory};
use discord_assist::history::HistoryRecord;

fn rec(id: u64, event_type: &str, title: &str) -> HistoryRecord {
    HistoryRecord {
        id,
        event_type: event_type.to_string(),
        source_title: Some(title.to_string()),
    }
}

fn one_history_source() -> EngineConfig {
    EngineConfig {
        poll_interval_secs: 1,
        temp_threshold: 50,
        sonarr: Some(("http://sonarr".to_string(), "key".to_string())),
        radarr: None,
        unraid: None,
    }
}

#[test]
fn end_to_end_import_routed_to_imports_channel() {
    // Engine with a one-tick interval and one history-diff poller. The
    // first tick's page pre-seeds the baseline and is suppressed; the
    // second tick's new record emits exactly one Import event, routed to
    // the imports destination.
    let destinations = DestinationMap { grabs: 100, imports: 200, alerts: 300 };
    let mut engine = Engine::new(&one_history_source(), destinations);
    assert!(engine.is_running());

    let first_page = vec![rec(1, "grabbed", "Show A")];
    let out = engine.tick(vec![PollInput::History(first_page)]);
    assert!(out.is_empty());

    let second_page = vec![
        rec(1, "grabbed", "Show A"),
        rec(2, "downloadFolderImported", "Show A"),
    ];
    let out = engine.tick(vec![PollInput::History(second_page)]);
    assert_eq!(out.len(), 1);
    let (channel, event) = &out[0];
    assert_eq!(*channel, 200);
    assert_eq!(event.category, NotificationCategory::MediaImport);
    assert_eq!(event.title, "Sonarr Import");
    assert_eq!(event.body, "Imported: Show A");

    engine.stop();
    assert!(!engine.is_running());
}

#[test]
fn failed_fetch_keeps_poller_memory() {
    let destinations = alias_map(7);
    let mut engine = Engine::new(&one_history_source(), destinations);
    // A failed first fetch produces nothing and does not consume the
    // baseline: the next successful page is still suppressed.
    let out = engine.tick(vec![PollInput::Failed]);
    assert!(out.is_empty());
    let out = engine.tick(vec![PollInput::History(vec![rec(1, "grabbed", "A")])]);
    assert!(out.is_empty());
    // Now the baseline is set: a new record shows up.
    let out = engine.tick(vec![PollInput::History(vec![rec(2, "grabbed", "B")])]);
    assert_eq!(out.len(), 1);
    assert_eq!(out[0].0, 7);
}

#[test]
fn pollers_run_in_registration_order() {
    let cfg = EngineConfig {
        poll_interval_secs: 1,
        temp_threshold: 50,
        sonarr: Some(("u".to_string(), "k".to_string())),
        radarr: Some(("u".to_string(), "k".to_string())),
        unraid: None,
    };
    let mut engine = Engine::new(&cfg, DestinationMap { grabs: 1, imports: 2, alerts: 3 });
    let out = engine.tick(vec![
        PollInput::History(Vec::new()),
        PollInput::History(Vec::new()),
    ]);
    assert!(out.is_empty());
    let out = engine.tick(vec![
        PollInput::History(vec![rec(10, "grabbed", "S")]),
        PollInput::History(vec![rec(10, "grabbed", "R")]),
    ]);
    assert_eq!(out.len(), 2);
    assert_eq!(out[0].1.title, "Sonarr Grab");
    assert_eq!(out[1].1.title, "Radarr Grab");
    assert_eq!(out[0].0, 1);
    assert_eq!(out[1].0, 1);
}

#[test]
fn startup_plan_prefers_fallback() {
    assert!(matches!(startup_plan(Some(5), Some(9)), StartupPlan::Legacy(5)));
    assert!(matches!(startup_plan(Some(5), None), StartupPlan::Legacy(5)));
    assert!(matches!(startup_plan(None, Some(9)), StartupPlan::Discover(9)));
    assert!(matches!(startup_plan(None, None), StartupPlan::CannotStart));
}

#[test]
fn alias_map_points_all_categories_at_one_channel() {
    let m = alias_map(42);
    assert_eq!(m.grabs, 42);
    assert_eq!(m.imports, 42);
    assert_eq!(m.alerts, 42);
}
