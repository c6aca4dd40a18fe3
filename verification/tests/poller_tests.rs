use discord_assist::events::NotificationCategory;
use discord_assist::history::{HistoryPoller, HistoryRecord};
use discord_assist::snapshot::{ContainerObs, DiskReading, Snapshot, SnapshotPoller};

fn rec(id: u64, event_type: &str, title: &str) -> HistoryRecord {
    HistoryRecord {
        id,
        event_type: event_type.to_string(),
        source_title: Some(title.to_string()),
    }
}

#[test]
fn first_poll_suppresses_and_baselines() {
    let mut p = HistoryPoller::new("Sonarr");
    let page = vec![rec(1, "grabbed", "A"), rec(2, "downloadFolderImported", "B")];
    let events = p.poll(&page);
    assert!(events.is_empty());
    // The baseline is established: the same page emits nothing again.
    let events = p.poll(&page);
    assert!(events.is_empty());
}

#[test]
fn new_record_detected_and_classified() {
    let mut p = HistoryPoller::new("Sonarr");
    let _ = p.poll(&vec![rec(1, "grabbed", "A"), rec(2, "grabbed", "B")]);
    // Seen set is {1, 2}; a page with the new id 3 emits exactly one grab.
    let events = p.poll(&vec![rec(3, "grabbed", "X")]);
    assert_eq!(events.len(), 1);
    assert_eq!(events[0].category, NotificationCategory::MediaGrab);
    assert_eq!(events[0].title, "Sonarr Grab");
    assert_eq!(events[0].body, "Grabbed: X");
    assert_eq!(events[0].color, 0xf5c518);
    // All three ids now count as seen.
    let events = p.poll(&vec![rec(1, "grabbed", "A"), rec(2, "grabbed", "B"), rec(3, "grabbed", "X")]);
    assert!(events.is_empty());
}

#[test]
fn import_classification_and_unknown_types() {
    let mut p = HistoryPoller::new("Radarr");
    let _ = p.poll(&Vec::new());
    let events = p.poll(&vec![
        rec(1, "downloadFolderImported", "M"),
        rec(2, "episodeFileDeleted", "N"),
    ]);
    assert_eq!(events.len(), 1);
    assert_eq!(events[0].category, NotificationCategory::MediaImport);
    assert_eq!(events[0].title, "Radarr Import");
    assert_eq!(events[0].body, "Imported: M");
    assert_eq!(events[0].color, 0x2ecc71);
}

#[test]
fn missing_title_reads_unknown() {
    let mut p = HistoryPoller::new("Sonarr");
    let _ = p.poll(&Vec::new());
    let events = p.poll(&vec![HistoryRecord {
        id: 9,
        event_type: "grabbed".to_string(),
        source_title: None,
    }]);
    assert_eq!(events.len(), 1);
    assert_eq!(events[0].body, "Grabbed: Unknown");
}

#[test]
fn seen_set_pruned_to_page_after_bound() {
    let mut p = HistoryPoller::new("Sonarr");
    // Baseline with ids 0..=1000: over the bound of 1000 entries.
    let big: Vec<HistoryRecord> = (0..1001).map(|i| rec(i, "grabbed", "t")).collect();
    let _ = p.poll(&big);
    // The next poll's page holds only id 2000; afterwards the memory is the
    // page alone, so an old id counts as new again.
    let events = p.poll(&vec![rec(2000, "grabbed", "fresh")]);
    assert_eq!(events.len(), 1);
    let events = p.poll(&vec![rec(5, "grabbed", "returned")]);
    assert_eq!(events.len(), 1);
    assert_eq!(events[0].body, "Grabbed: returned");
}

fn container(name: &str, state: &str) -> ContainerObs {
    ContainerObs {
        names: vec![format!("/{name}")],
        state: state.to_string(),
    }
}

fn snap(mode: &str, disks: Vec<DiskReading>, containers: Vec<ContainerObs>) -> Snapshot {
    Snapshot {
        array_state: mode.to_string(),
        disks,
        containers,
    }
}

#[test]
fn container_transition_is_edge_triggered() {
    let mut p = SnapshotPoller::new(50);
    let _ = p.poll(&snap("STARTED", vec![], vec![container("appA", "RUNNING")]));
    // RUNNING -> EXITED fires exactly one alert.
    let events = p.poll(&snap("STARTED", vec![], vec![container("appA", "EXITED")]));
    assert_eq!(events.len(), 1);
    assert_eq!(events[0].category, NotificationCategory::ServerAlert);
    assert_eq!(events[0].title, "Container Down");
    assert_eq!(events[0].body, "appA: RUNNING -> EXITED");
    // A second poll with the state unchanged fires nothing further.
    let events = p.poll(&snap("STARTED", vec![], vec![container("appA", "EXITED")]));
    assert!(events.is_empty());
}

#[test]
fn threshold_refires_every_poll() {
    let mut p = SnapshotPoller::new(50);
    let reading = || vec![DiskReading { name: "disk1".to_string(), temperature: Some(55) }];
    let _ = p.poll(&snap("STARTED", reading(), vec![]));
    // At or above threshold: one alert on every poll while it lasts.
    let events = p.poll(&snap("STARTED", reading(), vec![]));
    assert_eq!(events.len(), 1);
    assert_eq!(events[0].title, "Disk Temperature Warning");
    assert_eq!(events[0].body, "disk1: 55C (threshold: 50C)");
    let events = p.poll(&snap("STARTED", reading(), vec![]));
    assert_eq!(events.len(), 1);
    // Exactly at threshold still fires; below does not.
    let at = vec![DiskReading { name: "disk1".to_string(), temperature: Some(50) }];
    assert_eq!(p.poll(&snap("STARTED", at, vec![])).len(), 1);
    let below = vec![DiskReading { name: "disk1".to_string(), temperature: Some(49) }];
    assert!(p.poll(&snap("STARTED", below, vec![])).is_empty());
}

#[test]
fn mode_change_fires_once() {
    let mut p = SnapshotPoller::new(50);
    let _ = p.poll(&snap("STARTED", vec![], vec![]));
    let events = p.poll(&snap("STOPPED", vec![], vec![]));
    assert_eq!(events.len(), 1);
    assert_eq!(events[0].title, "Array State Changed");
    assert_eq!(events[0].body, "STARTED -> STOPPED");
    assert_eq!(events[0].color, 0xe67e22);
    let events = p.poll(&snap("STOPPED", vec![], vec![]));
    assert!(events.is_empty());
}

#[test]
fn first_snapshot_is_only_recorded() {
    let mut p = SnapshotPoller::new(50);
    let hot = vec![DiskReading { name: "d".to_string(), temperature: Some(90) }];
    let events = p.poll(&snap("STARTED", hot, vec![container("a", "EXITED")]));
    assert!(events.is_empty());
}

#[test]
fn missing_temperature_is_ignored() {
    let mut p = SnapshotPoller::new(50);
    let none = || vec![DiskReading { name: "d".to_string(), temperature: None }];
    let _ = p.poll(&snap("STARTED", none(), vec![]));
    assert!(p.poll(&snap("STARTED", none(), vec![])).is_empty());
}

#[test]
fn container_display_name_strips_slash() {
    let c = container("plex", "RUNNING");
    assert_eq!(c.display_name(), "plex");
    let bare = ContainerObs { names: vec!["bare".to_string()], state: "RUNNING".to_string() };
    assert_eq!(bare.display_name(), "bare");
    let unnamed = ContainerObs { names: vec![], state: "RUNNING".to_string() };
    assert_eq!(unnamed.display_name(), "unknown");
}
