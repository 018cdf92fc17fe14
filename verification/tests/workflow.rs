use ingestqnc::model::{AppState, ClipCard};
use ingestqnc::runtime::{
    IdentifiedSourceRuntime, ProbeRuntimeReport, ProbedSourceRuntime, ScanRuntimeReport,
    ScannedSourceRuntime,
};
use ingestqnc::ui::shell::ShellCommand;
use ingestqnc::workflow::{
    after_full_scan, after_identification, apply_runtime_event, start_job, IngestJob,
    RuntimeEvent,
};

fn card(id: &str) -> ClipCard {
    ClipCard {
        id: id.into(),
        name: format!("{id}.mov"),
        duration_bits: 0,
        ingest_status: "scanned".into(),
        selected: false,
        source_identity: "card:sn-1".into(),
        clip_fingerprint: format!("fp-{id}"),
        clip_created_at: String::new(),
        poster_relative_path: None,
        poster_source: None,
        poster_access_path: None,
    }
}

fn identified() -> IdentifiedSourceRuntime {
    IdentifiedSourceRuntime {
        operator_location: "/media/card".into(),
        source_identity: "card:sn-1".into(),
        source_kind: "local_card".into(),
        display_name: "CARD".into(),
        transport_uri: "qnc+local://localhost/card/sn-1".into(),
        identity_basis: "media_serial".into(),
        identity_label: "Serial".into(),
        identity_value: "SN-1".into(),
        confidence: "strong".into(),
        seen_at: "t".into(),
        registry_database_uri: "r".into(),
        registry_schema_version: 1,
        content_database_uri: "c".into(),
        content_schema_version: 2,
    }
}

fn scanned(ids: &[&str]) -> ScannedSourceRuntime {
    ScannedSourceRuntime {
        report: ScanRuntimeReport {
            source_identity: "card:sn-1".into(),
            files_seen: ids.len() + 1,
            media_files_seen: ids.len(),
            clips_inserted: ids.len(),
            clips_updated: 0,
            skipped_non_media: 1,
        },
        clips: ids.iter().map(|id| card(id)).collect(),
    }
}

#[test]
fn full_ingest_identifies_scans_and_probes_in_order() {
    let mut state = AppState::new();
    assert!(start_job(&mut state, ShellCommand::IngestSelectedSource).is_none());
    assert_eq!(state.status_line, "Odaberi lokaciju izvora.");

    state.source.open_path(" /media/card ".into());
    let job = start_job(&mut state, ShellCommand::IngestSelectedSource).unwrap();
    assert!(matches!(&job, IngestJob::FullIngest { location } if location == "/media/card"));
    assert!(state.ingest_busy && state.source.busy && !state.probe_busy);
    assert_eq!(state.status_line, "Identifikacija izvora...");
    assert!(start_job(&mut state, ShellCommand::ScanSelectedSource).is_none());

    let (event, next) = after_identification(Ok(identified()));
    assert_eq!(next, Some(("card:sn-1".to_string(), "/media/card".to_string())));
    apply_runtime_event(&mut state, event);
    assert_eq!(state.status_line, "Izvor: CARD (card:sn-1)");
    assert_eq!(state.identified_source.as_ref().map(|s| s.identity_value.as_str()), Some("SN-1"));

    let (events, probe) = after_full_scan("card:sn-1", Ok(scanned(&["a", "b"])));
    assert_eq!(probe, Some(vec!["a".to_string(), "b".to_string()]));
    assert_eq!(events.len(), 2);
    for event in events {
        apply_runtime_event(&mut state, event);
    }
    assert_eq!(state.clips.len(), 2);
    assert!(!state.source.busy && state.ingest_busy && state.probe_busy);
    assert_eq!(state.status_line, "Probe u tijeku: 2 klipova.");

    let mut probed = scanned(&["a", "b"]).clips;
    probed[0].ingest_status = "done".into();
    apply_runtime_event(
        &mut state,
        RuntimeEvent::ProbeFinished(Ok(ProbedSourceRuntime {
            report: ProbeRuntimeReport {
                source_identity: "card:sn-1".into(),
                requested_clips: 2,
                candidate_clips: 2,
                probes_ok: 1,
                probes_error: 1,
                probes_skipped: 0,
            },
            clips: probed,
        })),
    );
    assert!(!state.ingest_busy && !state.probe_busy);
    assert_eq!(state.status_line, "Probe završen: 1 OK, 1 greška.");
    assert_eq!(state.clips[0].ingest_status, "done");
}

#[test]
fn failures_end_the_job_and_free_the_view() {
    let mut state = AppState::new();
    state.source.open_path("/media/card".into());
    start_job(&mut state, ShellCommand::IngestSelectedSource).unwrap();
    let (event, next) = after_identification(Err("marker parse failed".into()));
    assert!(next.is_none());
    apply_runtime_event(&mut state, event);
    assert!(!state.ingest_busy && !state.probe_busy && !state.source.busy);
    assert_eq!(state.status_line, "Identifikacija nije uspjela: marker parse failed");

    let (events, next) = after_full_scan("card:sn-1", Err("no such directory".into()));
    assert!(next.is_none());
    assert_eq!(events.len(), 1);

    let (events, next) = after_full_scan("card:sn-1", Ok(scanned(&[])));
    assert!(next.is_none());
    assert!(matches!(
        &events[1],
        RuntimeEvent::ProbeFinished(Ok(p)) if p.clips.is_empty() && p.report.source_identity == "card:sn-1" && p.report.requested_clips == 0
    ));
}

#[test]
fn rescan_and_probe_need_an_identified_source_and_a_selection() {
    let mut state = AppState::new();
    assert!(start_job(&mut state, ShellCommand::ScanSelectedSource).is_none());
    assert_eq!(state.status_line, "Prvo odaberi izvor.");
    assert!(start_job(&mut state, ShellCommand::ProbeSelectedClips).is_none());
    assert_eq!(state.status_line, "Prvo odaberi izvor.");
    assert!(start_job(&mut state, ShellCommand::Idle).is_none());

    apply_runtime_event(&mut state, RuntimeEvent::SourceIdentified(Ok(identified())));
    state.replace_clips_preserving_selection(vec![card("a"), card("b")]);
    assert!(start_job(&mut state, ShellCommand::ProbeSelectedClips).is_none());
    assert_eq!(state.status_line, "Nema odabranih klipova za Ingest.");

    state.toggle_clip_selection("b");
    match start_job(&mut state, ShellCommand::ProbeSelectedClips) {
        Some(IngestJob::ProbeSelected { source_identity, operator_location, clip_ids }) => {
            assert_eq!(source_identity, "card:sn-1");
            assert_eq!(operator_location, "/media/card");
            assert_eq!(clip_ids, vec!["b".to_string()]);
        }
        _ => panic!("the probe should start"),
    }
    assert_eq!(state.status_line, "Probe pokrenut za 1 klipova...");
    assert!(state.ingest_busy && state.probe_busy);
    apply_runtime_event(&mut state, RuntimeEvent::ProbeFinished(Err("ffprobe missing".into())));
    assert_eq!(state.status_line, "Probe nije uspio: ffprobe missing");
    assert!(!state.ingest_busy && !state.probe_busy);

    match start_job(&mut state, ShellCommand::ScanSelectedSource) {
        Some(IngestJob::Rescan { source_identity, .. }) => assert_eq!(source_identity, "card:sn-1"),
        _ => panic!("the rescan should start"),
    }
    assert_eq!(state.status_line, "Skeniranje izvora...");
    apply_runtime_event(&mut state, RuntimeEvent::SourceScanned(Err("gone".into())));
    assert_eq!(state.status_line, "Skeniranje nije uspjelo: gone");
    assert!(!state.ingest_busy);
}
