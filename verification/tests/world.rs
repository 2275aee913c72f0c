use std::collections::BTreeMap;
use craft_worker::persist::{has_distinct_paths, plan_save, WorldFile};
use craft_worker::routes::{route_request, Route};
use craft_worker::settings::Settings;
use craft_worker::world::{authority, Admission, IdleAction, IdleEvent, Lifecycle, Phase, PORT};

fn settings() -> Settings {
    Settings {
        view_distance: 4,
        simulation_distance: 3,
        max_players: 2,
        compression_threshold: 512,
        compression_level: 1,
        idle_timeout_seconds: 10,
        motd: "Hello".to_string(),
        seed: None,
    }
}

#[test]
fn phase_names() {
    assert_eq!(Phase::Idle.name(), "idle");
    assert_eq!(Phase::Starting.name(), "starting");
    assert_eq!(Phase::Running.name(), "running");
    assert_eq!(Phase::Saving.name(), "saving");
    assert_eq!(Phase::Stopping.name(), "stopping");
    assert_eq!(Phase::Failed.name(), "failed");
}

#[test]
fn authority_names_the_listener() {
    assert_eq!(authority(), format!("world:{PORT}"));
    assert_eq!(authority(), "world:25565");
}

#[test]
fn admission_follows_the_phase() {
    let mut world = Lifecycle::new(None);
    assert!(matches!(world.connection_admission(), Admission::Start));
    assert!(!world.set_phase(Phase::Starting));
    assert!(matches!(world.connection_admission(), Admission::Wait));
    assert!(world.wait_for_change());
    assert!(!world.wait_for_change());
    assert!(world.started());
    assert_eq!(world.phase(), Phase::Running);
    assert_eq!(world.starts(), 1);
    assert!(matches!(world.connection_admission(), Admission::Route));
    world.set_phase(Phase::Saving);
    assert!(matches!(world.connection_admission(), Admission::Wait));
    world.set_phase(Phase::Stopping);
    assert!(matches!(world.connection_admission(), Admission::Wait));
    world.set_phase(Phase::Idle);
    assert!(matches!(world.connection_admission(), Admission::Start));
}

#[test]
fn the_first_failure_is_kept() {
    let mut world = Lifecycle::new(None);
    world.set_phase(Phase::Starting);
    world.wait_for_change();
    assert!(world.fail("boom".to_string()));
    assert_eq!(world.phase(), Phase::Failed);
    assert!(!world.fail("later".to_string()));
    match world.connection_admission() {
        Admission::Refuse(message) => assert_eq!(message, "boom"),
        _ => panic!("expected a refusal"),
    }
    let report = world.status(true, false);
    assert_eq!(report.phase, "failed");
    assert_eq!(report.failure.as_deref(), Some("boom"));
}

#[test]
fn connections_are_counted() {
    let mut world = Lifecycle::new(None);
    world.started();
    world.route();
    world.route();
    assert_eq!(world.connections(), 2);
    assert!(!world.close());
    assert!(world.close());
    assert_eq!(world.connections(), 0);
}

#[test]
fn status_reports_the_server_only_while_running() {
    let mut world = Lifecycle::new(None);
    let report = world.status(true, true);
    assert_eq!(report.phase, "idle");
    assert!(!report.server_shown);
    assert!(report.settings_shown);
    assert!(report.failure.is_none());
    world.started();
    world.route();
    let report = world.status(false, true);
    assert!(report.server_shown);
    assert!(!report.settings_shown);
    assert_eq!(report.connections, 1);
    assert_eq!(report.runtime_starts, 1);
    assert!(!world.status(true, false).server_shown);
}

#[test]
fn server_listing_reports_description_and_players() {
    let mut world = Lifecycle::new(None);
    let listing = world.server_listing(&Ok(settings()), None).unwrap();
    assert_eq!(listing.text, "Hello");
    assert_eq!(listing.max_players, 2);
    assert_eq!(listing.online, 0);
    let listing = world.server_listing(&Ok(settings()), Some(3)).unwrap();
    assert_eq!(listing.online, 0);
    world.started();
    let listing = world.server_listing(&Ok(settings()), Some(3)).unwrap();
    assert_eq!(listing.online, 3);
    world.fail("boom".to_string());
    let listing = world.server_listing(&Ok(settings()), Some(3)).unwrap();
    assert_eq!(listing.text, "Server unavailable");
    assert_eq!(listing.online, 0);
    assert_eq!(
        world
            .server_listing(&Err("MOTD is unreadable".to_string()), None)
            .err(),
        Some("MOTD is unreadable".to_string())
    );
}

#[test]
fn routes() {
    assert_eq!(route_request("/health", true), Route::Health);
    assert_eq!(route_request("/health", false), Route::Health);
    assert_eq!(route_request("/", true), Route::Status);
    assert_eq!(route_request("/", false), Route::NotFound);
    assert_eq!(route_request("/status", true), Route::NotFound);
    assert_eq!(route_request("", true), Route::NotFound);
}

fn file(path: &str, data: &[u8]) -> WorldFile {
    WorldFile { path: path.to_string(), data: data.to_vec() }
}

#[test]
fn save_writes_changed_files_and_removes_gone_ones() {
    let stored = vec![
        file("level.dat", b"old"),
        file("region/r.0.0.mca", b"same"),
        file("playerdata/gone.dat", b"x"),
    ];
    let files = vec![
        file("region/r.0.0.mca", b"same"),
        file("level.dat", b"new"),
        file("entities/e.0.0.mca", b""),
    ];
    let plan = plan_save(&stored, &files);
    assert_eq!(plan.write, vec![1, 2]);
    assert_eq!(plan.remove, vec![2]);
}

#[test]
fn save_of_an_unchanged_world_does_nothing() {
    let stored = vec![file("a", b"1"), file("b", b"2")];
    let files = vec![file("b", b"2"), file("a", b"1")];
    let plan = plan_save(&stored, &files);
    assert!(plan.write.is_empty());
    assert!(plan.remove.is_empty());
    let plan = plan_save(&vec![], &files);
    assert_eq!(plan.write, vec![0, 1]);
    let plan = plan_save(&stored, &vec![]);
    assert_eq!(plan.remove, vec![0, 1]);
}

#[test]
fn carrying_out_a_save_plan_mirrors_the_files() {
    let stored = vec![
        file("a", b"1"),
        file("b", b"2"),
        file("c", b"3"),
        file("d", b"4"),
    ];
    let files = vec![file("d", b"4"), file("b", b"two"), file("e", b"5")];
    let plan = plan_save(&stored, &files);
    let mut rows: BTreeMap<String, Vec<u8>> =
        stored.iter().map(|f| (f.path.clone(), f.data.clone())).collect();
    for &i in &plan.write {
        rows.insert(files[i].path.clone(), files[i].data.clone());
    }
    for &j in &plan.remove {
        rows.remove(&stored[j].path);
    }
    let expected: BTreeMap<String, Vec<u8>> =
        files.iter().map(|f| (f.path.clone(), f.data.clone())).collect();
    assert_eq!(rows, expected);
    assert_eq!(plan.write, vec![1, 2]);
    assert_eq!(plan.remove, vec![0, 2]);
}

#[test]
fn refused_settings_are_reported_as_the_failure() {
    let mut world = Lifecycle::new(Some("MOTD is unreadable".to_string()));
    let report = world.status(false, false);
    assert_eq!(report.failure.as_deref(), Some("MOTD is unreadable"));
    assert_eq!(report.phase, "idle");
    assert!(!report.settings_shown);
    world.set_phase(Phase::Starting);
    assert!(!world.fail("MOTD is unreadable".to_string()));
    assert_eq!(world.phase(), Phase::Failed);
    match world.connection_admission() {
        Admission::Refuse(message) => assert_eq!(message, "MOTD is unreadable"),
        _ => panic!("expected a refusal"),
    }
    assert!(Lifecycle::new(None).status(true, false).failure.is_none());
}

fn running() -> Lifecycle {
    let mut world = Lifecycle::new(None);
    world.set_phase(Phase::Starting);
    world.started();
    world
}

#[test]
fn a_quiet_reconnect_window_stops_the_server() {
    let mut world = running();
    world.route();
    assert!(world.close());
    assert_eq!(world.idle_step(IdleEvent::Notified), (IdleAction::Checkpoint, false));
    assert_eq!(world.phase(), Phase::Saving);
    assert!(world.status(true, true).server_shown);
    assert_eq!(world.idle_step(IdleEvent::Checkpointed), (IdleAction::OpenWindow, false));
    assert_eq!(world.phase(), Phase::Running);
    assert_eq!(world.idle_step(IdleEvent::WindowElapsed), (IdleAction::Stop, false));
    assert_eq!(world.phase(), Phase::Stopping);
}

#[test]
fn a_connection_open_when_notified_keeps_the_server_up() {
    let mut world = running();
    world.route();
    assert_eq!(world.idle_step(IdleEvent::Notified), (IdleAction::AwaitIdle, false));
    assert_eq!(world.phase(), Phase::Running);
}

#[test]
fn a_reconnect_during_the_window_cancels_the_stop() {
    let mut world = running();
    world.idle_step(IdleEvent::Notified);
    world.idle_step(IdleEvent::Checkpointed);
    world.route();
    assert!(world.close());
    assert_eq!(world.idle_step(IdleEvent::WindowElapsed), (IdleAction::AwaitIdle, false));
    assert_eq!(world.phase(), Phase::Running);
    world.idle_step(IdleEvent::Notified);
    world.idle_step(IdleEvent::Checkpointed);
    assert_eq!(world.idle_step(IdleEvent::WindowElapsed), (IdleAction::Stop, false));

    let mut world = running();
    world.idle_step(IdleEvent::Notified);
    world.idle_step(IdleEvent::Checkpointed);
    world.route();
    assert_eq!(world.idle_step(IdleEvent::WindowElapsed), (IdleAction::AwaitIdle, false));
}

#[test]
fn connections_waiting_on_a_checkpoint_are_released() {
    let mut world = running();
    world.idle_step(IdleEvent::Notified);
    assert!(matches!(world.connection_admission(), Admission::Wait));
    assert!(world.wait_for_change());
    assert_eq!(world.idle_step(IdleEvent::Checkpointed), (IdleAction::OpenWindow, true));
    assert!(matches!(world.connection_admission(), Admission::Route));
}

#[test]
fn checkpoint_failures_are_reported() {
    let mut world = running();
    world.checkpoint_failed("sync failed".to_string());
    let report = world.status(true, true);
    assert_eq!(report.checkpoint_failure.as_deref(), Some("sync failed"));
    assert!(report.failure.is_none());
}

#[test]
fn players_are_counted_during_a_checkpoint() {
    let mut world = running();
    world.idle_step(IdleEvent::Notified);
    let listing = world.server_listing(&Ok(settings()), Some(1)).unwrap();
    assert_eq!(listing.online, 1);
}

#[test]
fn distinct_paths_are_recognised() {
    assert!(has_distinct_paths(&vec![]));
    assert!(has_distinct_paths(&vec![file("a", b"1"), file("b", b"1")]));
    assert!(!has_distinct_paths(&vec![file("a", b"1"), file("b", b""), file("a", b"2")]));
}

#[test]
fn a_save_after_a_save_changes_nothing() {
    let files = vec![file("a", b"1"), file("b/c", b"2")];
    let first = plan_save(&vec![file("a", b"0"), file("z", b"9")], &files);
    assert_eq!(first.write, vec![0, 1]);
    assert_eq!(first.remove, vec![1]);
    let second = plan_save(&files, &files);
    assert!(second.write.is_empty());
    assert!(second.remove.is_empty());
}
