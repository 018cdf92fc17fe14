use std::path::PathBuf;

use ingestqnc::db::MODULE_CONTENT;
use ingestqnc::model::{ClipCard, SourceKind};
use ingestqnc::runtime::{
    clip_status, format_unix_utc, identity_label, identity_value_from_evidence,
    identity_value_from_found, identity_value_pointers, is_qnc_database_uri_base, mark_selected_clips, module_database_evidence_json,
    operator_access_root, split_transport_endpoint, uri_segment, AccessRoot, DatabaseLocator,
    RuntimeController, RuntimeError, SourceListing, TransportMounts,
};
use ingestqnc::source_identity::{
    detect_source_identity_with_provider, LocalSourceEvidence, SourceIdentityEvidenceProvider,
    SourceIdentityRequest,
};

struct NoMedium;

impl SourceIdentityEvidenceProvider for NoMedium {
    fn local_evidence(&self, _root: &str) -> LocalSourceEvidence {
        LocalSourceEvidence::default()
    }
}

#[test]
fn locator_accepts_lan_and_intranet_database_uri_bases() {
    let lan = DatabaseLocator::new("runtime-root", "qnc+lan://storage/ingest-db");
    let intranet = DatabaseLocator::new("runtime-root", "qnc+intranet://gateway/ingest-db");

    assert_eq!(
        lan.module_database_uri("card:test:sn-001", MODULE_CONTENT),
        "qnc+lan://storage/ingest-db/sources/card_test_sn-001/content.sqlite"
    );
    assert_eq!(
        intranet.registry_database_uri(),
        "qnc+intranet://gateway/ingest-db/registry.sqlite"
    );
}

#[test]
fn list_source_entries_keeps_lan_and_intranet_as_operator_input() {
    let controller = RuntimeController::new(DatabaseLocator::new(
        "runtime-root",
        "qnc+local://localhost/ingest-db",
    ));

    let lan = match controller.list_source_entries(SourceKind::Lan, "qnc+lan://nas-qnc/cards/A001") {
        SourceListing::Snapshot(snapshot) => snapshot,
        other => panic!("unexpected listing {other:?}"),
    };
    let intranet = match controller
        .list_source_entries(SourceKind::Intranet, "qnc+intranet://gateway/cards/A001")
    {
        SourceListing::Snapshot(snapshot) => snapshot,
        other => panic!("unexpected listing {other:?}"),
    };

    assert_eq!(lan.path, "qnc+lan://nas-qnc/cards/A001");
    assert_eq!(intranet.path, "qnc+intranet://gateway/cards/A001");
    assert!(lan.entries.is_empty());
    assert!(intranet.entries.is_empty());
}

fn access_root_with_mapping(mount_root: &str, rest: &str) -> PathBuf {
    let (host, path) = split_transport_endpoint(rest).unwrap();
    let mut root = PathBuf::from(mount_root).join(uri_segment(&host));
    for segment in path.split('/').filter(|segment| !segment.is_empty()) {
        root = root.join(segment);
    }
    root
}

#[test]
fn qnc_lan_and_intranet_use_transport_mapping_for_runtime_access() {
    assert_eq!(
        access_root_with_mapping("C:/mnt/lan", "nas-qnc/cards/A001",),
        PathBuf::from("C:/mnt/lan")
            .join("nas-qnc")
            .join("cards")
            .join("A001")
    );
    assert_eq!(
        access_root_with_mapping("C:/mnt/intranet", "gateway/cards/A001"),
        PathBuf::from("C:/mnt/intranet")
            .join("gateway")
            .join("cards")
            .join("A001")
    );
}

#[test]
fn list_source_entries_reads_local_paths_from_the_file_system() {
    let controller = RuntimeController::new(DatabaseLocator::new("root", "qnc+local://localhost/x"));
    assert_eq!(controller.list_source_entries(SourceKind::Local, "  "), SourceListing::LocalRoots);
    assert_eq!(
        controller.list_source_entries(SourceKind::Local, " /media/card "),
        SourceListing::LocalDirectory("/media/card".into())
    );
}

#[test]
fn locator_paths_and_settings() {
    let locator = DatabaseLocator::new("data", "qnc+local://localhost/ingest-db/");
    assert_eq!(locator.registry_path(), vec!["data".to_string(), "registry.sqlite".to_string()]);
    assert_eq!(
        locator.module_database_path("Card:Test:SN 001", "Content"),
        vec![
            "data".to_string(),
            "sources".to_string(),
            "card_test_sn_001".to_string(),
            "content.sqlite".to_string()
        ]
    );
    assert_eq!(
        locator.registry_database_uri(),
        "qnc+local://localhost/ingest-db/registry.sqlite"
    );
    let configured = DatabaseLocator::from_settings(None, Some("file:///tmp/db".into()), "cwd-data");
    assert_eq!(configured.root, "cwd-data");
    assert_eq!(configured.uri_base, "qnc+local://localhost/ingest-db");
    let configured =
        DatabaseLocator::from_settings(Some("home".into()), Some(" qnc+lan://nas/db".into()), "x");
    assert_eq!(configured.root, "home");
    assert_eq!(configured.uri_base, " qnc+lan://nas/db");
    assert!(is_qnc_database_uri_base("qnc+intranet://gw/db"));
    assert!(!is_qnc_database_uri_base("qnc://gw/db"));
}

#[test]
fn operator_access_roots_by_transport() {
    let none = TransportMounts { lan_mount_root: None, intranet_mount_root: None };
    let mounted = TransportMounts {
        lan_mount_root: Some("/mnt/lan".into()),
        intranet_mount_root: Some("/mnt/intranet".into()),
    };
    assert_eq!(
        operator_access_root("  /media/card ", &none, false),
        Ok(AccessRoot::Path("/media/card".into()))
    );
    assert_eq!(operator_access_root("  ", &none, false), Err(RuntimeError::EmptySourceLocation));
    assert_eq!(
        operator_access_root("qnc+lan://NAS-QNC/cards//A001/", &mounted, false),
        Ok(AccessRoot::Mapped {
            mount_root: "/mnt/lan".into(),
            segments: vec!["nas-qnc".into(), "cards".into(), "A001".into()],
        })
    );
    assert_eq!(
        operator_access_root("qnc://gateway/cards", &mounted, false),
        Ok(AccessRoot::Mapped {
            mount_root: "/mnt/intranet".into(),
            segments: vec!["gateway".into(), "cards".into()],
        })
    );
    assert_eq!(
        operator_access_root("qnc+lan://nas-qnc/cards/A001", &none, true),
        Ok(AccessRoot::Path("\\\\nas-qnc\\cards\\A001".into()))
    );
    assert_eq!(
        operator_access_root("qnc+lan://nas-qnc/cards", &none, false),
        Err(RuntimeError::UnresolvableTransport(
            "qnc+lan URI treba lokalni mount root kroz INGESTQNC_LAN_MOUNT_ROOT".into()
        ))
    );
    assert_eq!(
        operator_access_root("qnc+intranet://gw", &none, false),
        Err(RuntimeError::UnresolvableTransport(
            "qnc+intranet URI treba lokalni mount root kroz INGESTQNC_INTRANET_MOUNT_ROOT".into()
        ))
    );
    assert!(matches!(
        operator_access_root("qnc+local://localhost/card/SN", &mounted, false),
        Err(RuntimeError::UnresolvableTransport(_))
    ));
    assert!(matches!(
        operator_access_root("file:///media", &mounted, false),
        Err(RuntimeError::UnresolvableTransport(_))
    ));
    assert_eq!(
        split_transport_endpoint(" /cards"),
        Err(RuntimeError::UnresolvableTransport("QNC transport host nije zadan".into()))
    );
}

#[test]
fn clip_status_follows_the_latest_probe() {
    assert_eq!(clip_status(&Some("p".into()), &Some(" ERROR ".into())), "error");
    assert_eq!(clip_status(&None, &Some("ok".into())), "done");
    assert_eq!(clip_status(&Some("p".into()), &None), "done");
    assert_eq!(clip_status(&None, &Some("running".into())), "scanned");
    assert_eq!(clip_status(&None, &None), "scanned");
}

#[test]
fn identity_labels_and_values() {
    assert_eq!(identity_label("media_serial"), "Serial");
    assert_eq!(identity_label("local_transport_fallback"), "Fallback");
    assert_eq!(identity_label("anything"), "Identity");
    let evidence = r#"{"local":{"media_serial":"SN-1","canonical_path":null},"network":null}"#;
    assert_eq!(identity_value_from_evidence(evidence, "media_serial", "card:sn-1"), "SN-1");
    assert_eq!(identity_value_from_evidence(evidence, "root_signature", "local:ab"), "local:ab");
    assert_eq!(identity_value_from_evidence("not json", "media_serial", "fb"), "fb");

    let detected = detect_source_identity_with_provider(
        SourceIdentityRequest::new("qnc+lan://nas/news", "2026-09-03T10:00:00Z"),
        &NoMedium,
    )
    .unwrap();
    let controller =
        RuntimeController::new(DatabaseLocator::new("data", "qnc+lan://storage/ingest-db"));
    let identified = controller.identified_source("qnc+lan://nas/news", &detected, "2026-09-03T10:00:00Z");
    assert_eq!(identified.identity_label, "Endpoint");
    assert_eq!(identified.identity_value, "news");
    assert_eq!(identified.confidence, "medium");
    assert_eq!(
        identified.content_database_uri,
        "qnc+lan://storage/ingest-db/sources/lan_nas_news/content.sqlite"
    );
}

#[test]
fn module_evidence_and_checked_inputs() {
    assert_eq!(
        module_database_evidence_json("content", "/data/sources/x/content.sqlite"),
        r#"{"local_path_evidence":"/data/sources/x/content.sqlite","module_name":"content","note":"raw local path is runtime evidence only; persisted database_uri is QNC transport","schema_version":1}"#
    );
    assert_eq!(RuntimeController::checked_location("  "), Err(RuntimeError::EmptySourceLocation));
    assert_eq!(RuntimeController::checked_location(" a "), Ok("a".to_string()));
    assert_eq!(
        RuntimeController::checked_source_identity(" "),
        Err(RuntimeError::SourceNotIdentified)
    );
    let controller = RuntimeController::new(DatabaseLocator::new("data", "qnc+local://localhost/db"));
    let record = controller.content_module_record("card:sn-1", "/data/c.sqlite", "t");
    assert_eq!(record.database_uri, "qnc+local://localhost/db/sources/card_sn-1/content.sqlite");
    assert_eq!(record.module_schema_version, 2);
}

fn card(id: &str, selected: bool) -> ClipCard {
    ClipCard {
        id: id.into(),
        name: id.into(),
        duration_bits: 0,
        ingest_status: "scanned".into(),
        selected,
        source_identity: "s".into(),
        clip_fingerprint: "f".into(),
        clip_created_at: String::new(),
        poster_relative_path: None,
        poster_source: None,
        poster_access_path: None,
    }
}

#[test]
fn marking_selected_clips_follows_the_request() {
    let mut clips = vec![card("a", true), card("b", false), card("c", false)];
    mark_selected_clips(&mut clips, &vec![]);
    assert_eq!(clips.iter().filter(|c| c.selected).count(), 1);
    mark_selected_clips(&mut clips, &vec![" b ".into(), "".into(), "x".into()]);
    assert_eq!(
        clips.iter().map(|c| c.selected).collect::<Vec<_>>(),
        vec![false, true, false]
    );
}

#[test]
fn unix_seconds_format_as_utc() {
    assert_eq!(format_unix_utc(0), "1970-01-01T00:00:00Z");
    assert_eq!(format_unix_utc(1_788_430_462), "2026-09-03T10:14:22Z");
    assert_eq!(format_unix_utc(951_782_400), "2000-02-29T00:00:00Z");
}

#[test]
fn identity_values_come_from_the_first_pointer_that_holds_one() {
    assert_eq!(identity_value_pointers("transport_endpoint"), vec!["/network/share_or_gateway_path", "/network/host"]);
    assert!(identity_value_pointers("marker_source_identity").is_empty());
    assert_eq!(identity_value_from_found(&vec![None, Some("nas-qnc".into())], "fb"), "nas-qnc");
    assert_eq!(identity_value_from_found(&vec![Some("cards".into()), Some("nas".into())], "fb"), "cards");
    assert_eq!(identity_value_from_found(&vec![None, None], "fb"), "fb");
    assert_eq!(identity_value_from_found(&Vec::new(), "fb"), "fb");
    let evidence = r#"{"network":{"host":"nas-qnc","share_or_gateway_path":null}}"#;
    assert_eq!(identity_value_from_evidence(evidence, "transport_endpoint", "fb"), "nas-qnc");
}
