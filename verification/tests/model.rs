use ingestqnc::model::{
    duration_text, parent_path, prioritized_poster_clips, AppState, ClipCard, SourceBrowserState, SourceKind,
};
use ingestqnc::runtime::{IdentifiedSourceRuntime, SourceEntrySnapshot};
use ingestqnc::ui::location_browser::LocationBrowserAction;
use ingestqnc::ui::shell::{
    apply_browser_action, apply_card_grid_action, clear_selected_source, CardGridAction, dock_label, dock_status,
    identified_source_summary, import_enabled, refresh_source_entries, set_command,
    source_serial_suffix, timecode_text, ShellCommand,
};

#[test]
fn source_browser_initial_location_keeps_transport_kind() {
    let mut lan = SourceBrowserState::initial();
    lan.open_location("qnc+lan://nas-qnc/cards/A001".into());
    assert_eq!(lan.kind, SourceKind::Lan);
    assert_eq!(lan.path, "qnc+lan://nas-qnc/cards/A001");
    assert!(!lan.roots);

    let mut intranet = SourceBrowserState::initial();
    intranet.open_location("qnc+intranet://gateway/cards/A001".into());
    assert_eq!(intranet.kind, SourceKind::Intranet);
    assert_eq!(intranet.path, "qnc+intranet://gateway/cards/A001");
    assert!(!intranet.roots);
}

#[test]
fn initial_state_has_no_seed_sources_or_clips() {
    let state = AppState::new();
    assert!(state.clips.is_empty());
    assert!(state.active_clip_id.is_none());
    assert!(state.identified_source.is_none());
    assert!(state.source.entries.is_empty());
    assert!(state.status_line.contains("izvor"));
}

#[test]
fn opening_paths_sets_parents() {
    let mut state = SourceBrowserState::initial();
    state.open_path("E:\\DCIM\\100QNC".into());
    assert_eq!(state.kind, SourceKind::Local);
    assert!(!state.roots);
    assert_eq!(state.parent.as_deref(), Some("E:\\DCIM"));
    state.open_path("E:\\DCIM".into());
    assert_eq!(state.parent.as_deref(), Some("E:\\"));
    state.open_path("E:\\".into());
    assert_eq!(state.parent.as_deref(), Some(""));
    state.open_path("  ".into());
    assert!(state.roots);
    assert_eq!(state.parent, None);
    assert_eq!(parent_path("/media/card/"), Some("/media".into()));
    assert_eq!(parent_path("card"), None);
    state.open_location("qnc://gateway/x".into());
    assert_eq!(state.kind, SourceKind::Intranet);
    assert_eq!(SourceKind::Lan.label(), "LAN");
}

fn card(id: &str, status: &str) -> ClipCard {
    ClipCard {
        id: id.into(),
        name: format!("{id}.mov"),
        duration_bits: 8.2f64.to_bits(),
        ingest_status: status.into(),
        selected: false,
        source_identity: "card:sn-1".into(),
        clip_fingerprint: format!("fp-{id}"),
        clip_created_at: String::new(),
        poster_relative_path: None,
        poster_source: None,
        poster_access_path: None,
    }
}

#[test]
fn selection_survives_a_refresh_and_toggles_back() {
    let mut state = AppState::new();
    state.replace_clips_preserving_selection(vec![card("a", "done"), card("b", "scanned")]);
    assert_eq!(state.active_clip_id.as_deref(), Some("a"));
    state.toggle_clip_selection("b");
    assert_eq!(state.selected_clip_ids(), vec!["b".to_string()]);
    assert_eq!(state.status_line, "Odabrano: 1/2");
    state.focus_clip(1);
    assert_eq!(state.active_clip().map(|c| c.id.as_str()), Some("b"));
    assert_eq!(state.status_line, "Klip: b.mov");

    state.replace_clips_preserving_selection(vec![card("c", "Imported "), card("b", "ok")]);
    assert_eq!(state.selected_clip_ids(), vec!["b".to_string()]);
    assert_eq!(state.active_clip_id.as_deref(), Some("b"));
    assert_eq!(state.imported_clip_count(), 1);

    state.toggle_clip_selection("b");
    state.toggle_clip_selection("b");
    assert_eq!(state.selected_clip_count(), 1);
    state.toggle_clip_selection("missing");
    assert_eq!(state.selected_clip_count(), 1);

    state.select_all_clips();
    assert_eq!(state.selected_clip_count(), 2);
    assert_eq!(state.status_line, "Odabrano: 2/2");
    state.clear_clip_selection();
    assert_eq!(state.selected_clip_count(), 0);
    assert_eq!(state.status_line, "Odabir očišćen.");

    state.replace_clips_preserving_selection(vec![]);
    assert_eq!(state.active_clip_id, None);
    assert!(state.active_clip().is_none());
}

#[test]
fn shell_keeps_the_first_command_and_the_identified_source() {
    let mut command = ShellCommand::Idle;
    set_command(&mut command, ShellCommand::ScanSelectedSource);
    set_command(&mut command, ShellCommand::ProbeSelectedClips);
    assert_eq!(command, ShellCommand::ScanSelectedSource);

    let runtime = IdentifiedSourceRuntime {
        operator_location: "E:\\".into(),
        source_identity: "card:sn-1".into(),
        source_kind: "local_card".into(),
        display_name: "CARD".into(),
        transport_uri: "qnc+local://localhost/card/sn-1".into(),
        identity_basis: "media_serial".into(),
        identity_label: "Serial".into(),
        identity_value: "SN-1".into(),
        confidence: "strong".into(),
        seen_at: "t".into(),
        registry_database_uri: "r".into(),
        registry_schema_version: 1,
        content_database_uri: "c".into(),
        content_schema_version: 2,
    };
    let summary = identified_source_summary(&runtime);
    assert_eq!(summary.source_identity, "card:sn-1");
    assert_eq!(summary.content_database_uri, "c");
    assert_eq!(summary.identity_value, "SN-1");
}

#[test]
fn posters_load_for_the_active_clip_first() {
    let clips = vec![card("a", "done"), card("b", "done"), card("c", "done"), card("b", "done")];
    assert_eq!(prioritized_poster_clips(&clips, &Some("b".into())), vec![1, 0, 2]);
    assert_eq!(prioritized_poster_clips(&clips, &None), vec![0, 1, 2, 3]);
    assert_eq!(prioritized_poster_clips(&clips, &Some("x".into())), vec![0, 1, 2, 3]);
    assert!(prioritized_poster_clips(&Vec::new(), &Some("a".into())).is_empty());
}

#[test]
fn refresh_source_entries_keeps_runtime_errors_in_source_state() {
    let mut state = AppState::new();
    state.source.open_path("?:\\missing".into());
    state.source.busy = true;
    refresh_source_entries(&mut state, Err("runtime I/O greska: No such file or directory".into()));
    assert!(state.source.entries.is_empty());
    assert!(!state.source.busy);
    assert_eq!(state.source.path, "?:\\missing");
    assert!(state.source.error.is_some());
}

#[test]
fn refreshed_listings_replace_the_browser_entries() {
    let mut state = AppState::new();
    state.source.error = Some("old".into());
    let snapshot = SourceEntrySnapshot {
        roots: false,
        path: "/media/card".into(),
        parent: Some("/media".into()),
        entries: vec![ingestqnc::model::FsEntry { name: "DCIM".into(), path: "/media/card/DCIM".into() }],
        selected_root_label: Some("/".into()),
    };
    refresh_source_entries(&mut state, Ok(snapshot.clone()));
    assert_eq!(state.source.path, snapshot.path);
    assert_eq!(state.source.entries, snapshot.entries);
    assert_eq!(state.source.selected_root_label.as_deref(), Some("/"));
    assert!(state.source.error.is_none());
}

#[test]
fn serial_suffix_and_clearing_the_source() {
    let mut state = AppState::new();
    assert_eq!(source_serial_suffix(&state), None);
    let mut runtime = IdentifiedSourceRuntime {
        operator_location: "E:\\".into(),
        source_identity: "volume:windows-volume-serial-1234abcd".into(),
        source_kind: "local_volume".into(),
        display_name: "CARD".into(),
        transport_uri: "qnc+local://localhost/volume/1234abcd".into(),
        identity_basis: "volume_uuid".into(),
        identity_label: "Volume".into(),
        identity_value: " windows-volume-serial-1234abcd ".into(),
        confidence: "medium".into(),
        seen_at: "t".into(),
        registry_database_uri: "r".into(),
        registry_schema_version: 1,
        content_database_uri: "c".into(),
        content_schema_version: 2,
    };
    state.identified_source = Some(identified_source_summary(&runtime));
    assert_eq!(source_serial_suffix(&state).as_deref(), Some("1234abcd"));
    runtime.identity_basis = "transport_endpoint".into();
    state.identified_source = Some(identified_source_summary(&runtime));
    assert_eq!(source_serial_suffix(&state), None);
    runtime.identity_basis = "media_serial".into();
    runtime.identity_value = "windows-volume-serial-  ".into();
    state.identified_source = Some(identified_source_summary(&runtime));
    assert_eq!(source_serial_suffix(&state), None);

    state.replace_clips_preserving_selection(vec![card("a", "done")]);
    clear_selected_source(&mut state);
    assert!(state.identified_source.is_none());
    assert!(state.clips.is_empty());
    assert!(state.active_clip_id.is_none());
}

#[test]
fn whole_second_durations_and_timecodes() {
    assert_eq!(duration_text(8), "0:08");
    assert_eq!(duration_text(65), "1:05");
    assert_eq!(duration_text(3661), "1:01:01");
    assert_eq!(duration_text(0), "0:00");
    assert_eq!(timecode_text(0, 25), "00:00:00:00");
    assert_eq!(timecode_text(25 * 3661 + 7, 25), "01:01:01:07");
    assert_eq!(timecode_text(30 * 3600 * 100, 30), "100:00:00:00");
    assert_eq!(timecode_text(59, 1), "00:00:59:00");
}

#[test]
fn browser_actions_open_locations_and_forget_the_source() {
    let mut state = AppState::new();
    let mut command = ShellCommand::Idle;
    state.replace_clips_preserving_selection(vec![card("a", "done")]);
    let refresh = apply_browser_action(&mut state, LocationBrowserAction::SelectKind(SourceKind::Lan), &mut command);
    assert!(!refresh);
    assert_eq!(state.source.kind, SourceKind::Lan);
    assert!(!state.source.roots);
    assert_eq!(state.source.path, "");
    assert!(state.clips.is_empty());
    assert_eq!(state.status_line, "Stablo: LAN");

    let refresh = apply_browser_action(&mut state, LocationBrowserAction::OpenPath("qnc+lan://nas/cards".into()), &mut command);
    assert!(!refresh);
    assert_eq!(state.source.kind, SourceKind::Lan);
    assert_eq!(state.source.path, "qnc+lan://nas/cards");
    assert_eq!(state.status_line, "Stablo: qnc+lan://nas/cards");

    let refresh = apply_browser_action(&mut state, LocationBrowserAction::SelectKind(SourceKind::Local), &mut command);
    assert!(refresh);
    assert!(state.source.roots);
    assert_eq!(state.status_line, "Stablo: Local");
    let refresh = apply_browser_action(&mut state, LocationBrowserAction::OpenPath("/media/card/DCIM".into()), &mut command);
    assert!(refresh);
    assert_eq!(state.source.parent.as_deref(), Some("/media/card"));
    assert_eq!(state.status_line, "Stablo: /media/card/DCIM");
    apply_browser_action(&mut state, LocationBrowserAction::OpenPath("  ".into()), &mut command);
    assert_eq!(state.status_line, "Stablo: računalo.");

    assert!(!apply_browser_action(&mut state, LocationBrowserAction::Confirm, &mut command));
    assert_eq!(command, ShellCommand::IngestSelectedSource);
    apply_browser_action(&mut state, LocationBrowserAction::Cancel, &mut command);
    assert_eq!(state.status_line, "Stablo: računalo.");
    assert!(!apply_browser_action(&mut state, LocationBrowserAction::Idle, &mut command));
}

#[test]
fn dock_shows_label_status_and_import_availability() {
    let mut state = AppState::new();
    assert_eq!(dock_label(&state), "—");
    assert_eq!(dock_status(&state), "0 uvezeno · 0/0");
    assert!(!import_enabled(&state));
    state.replace_clips_preserving_selection(vec![card("a", "done"), card("b", "scanned")]);
    assert_eq!(dock_label(&state), "a.mov");
    state.toggle_clip_selection("b");
    assert_eq!(dock_status(&state), "1 uvezeno · 1/2");
    assert!(import_enabled(&state));
    state.probe_busy = true;
    assert_eq!(dock_status(&state), "probe u tijeku · 1/2");
    assert!(!import_enabled(&state));
    state.probe_busy = false;
    state.ingest_busy = true;
    assert_eq!(dock_status(&state), "ingest u tijeku · 1/2");
    state.active_clip_id = Some("gone".into());
    assert_eq!(dock_label(&state), "—");
}

#[test]
fn card_clicks_activate_or_toggle() {
    let mut state = AppState::new();
    state.replace_clips_preserving_selection(vec![card("a", "done"), card("b", "scanned")]);
    apply_card_grid_action(&mut state, CardGridAction::Activate("b".into()));
    assert_eq!(state.active_clip_id.as_deref(), Some("b"));
    assert_eq!(state.status_line, "Klip: b.mov");
    apply_card_grid_action(&mut state, CardGridAction::ToggleSelection("a".into()));
    assert!(state.clips[0].selected);
    assert_eq!(state.status_line, "Odabrano: 1/2");
    assert_eq!(state.active_clip_id.as_deref(), Some("b"));
    let before = state.status_line.clone();
    apply_card_grid_action(&mut state, CardGridAction::Activate("missing".into()));
    assert_eq!(state.active_clip_id.as_deref(), Some("b"));
    assert_eq!(state.status_line, before);
}
