use sha2::Digest;
use ingestqnc::source_identity::{
    detect_source_identity_with_provider, enrich_platform_volume_identity,
    local_identity_from_evidence, normalize_id_part, windows_volume_root, LocalSourceEvidence,
    SourceIdentityConfidence, SourceIdentityError, SourceIdentityEvidenceProvider,
    SourceIdentityRequest, VolumeInformation,
};

#[derive(Clone)]
struct FakeProvider(LocalSourceEvidence);

impl SourceIdentityEvidenceProvider for FakeProvider {
    fn local_evidence(&self, _root: &str) -> LocalSourceEvidence {
        self.0.clone()
    }
}

/// Transport URIs never reach the provider; a medium without evidence is
/// what a missing local path yields.
struct NoMedium;

impl SourceIdentityEvidenceProvider for NoMedium {
    fn local_evidence(&self, _root: &str) -> LocalSourceEvidence {
        LocalSourceEvidence::default()
    }
}

fn request(location: &str) -> SourceIdentityRequest {
    SourceIdentityRequest::new(location, "2026-09-03T10:00:00Z")
}

#[test]
fn local_card_serial_is_primary_identity() {
    let provider = FakeProvider(LocalSourceEvidence {
        media_serial: Some("SN-001".into()),
        volume_uuid: Some("windows-volume-serial-de666c9f".into()),
        volume_label: Some("MEDIA_CARD_A".into()),
        top_level_entries: vec!["DCIM".into(), "PRIVATE".into()],
        camera_layout: vec!["DCIM".into(), "PRIVATE".into()],
        root_exists: true,
        ..Default::default()
    });

    let detected =
        detect_source_identity_with_provider(request("operator-root"), &provider).unwrap();

    assert_eq!(detected.record.source_identity, "card:sn-001");
    assert_eq!(detected.record.source_kind, "local_card");
    assert_eq!(detected.record.display_name, "MEDIA_CARD_A");
    assert_eq!(
        detected.record.transport_uri,
        "qnc+local://localhost/card/sn-001"
    );
    assert_eq!(detected.confidence, SourceIdentityConfidence::Strong);
    assert_eq!(detected.identity_basis, "media_serial");
    assert!(detected.record.fallback_fingerprint.is_some());

    let evidence: serde_json::Value =
        serde_json::from_str(&detected.record.identity_evidence_json).unwrap();
    assert_eq!(
        evidence
            .pointer("/local/media_serial")
            .and_then(|v| v.as_str()),
        Some("SN-001")
    );
    assert_eq!(
        evidence
            .pointer("/local/volume_uuid")
            .and_then(|v| v.as_str()),
        Some("windows-volume-serial-de666c9f")
    );
    assert_eq!(
        evidence
            .pointer("/local/volume_label")
            .and_then(|v| v.as_str()),
        Some("MEDIA_CARD_A")
    );
}

#[test]
fn local_volume_uuid_is_medium_confidence_identity() {
    let provider = FakeProvider(LocalSourceEvidence {
        volume_uuid: Some("VOL-123".into()),
        volume_label: Some("Archive".into()),
        root_exists: true,
        ..Default::default()
    });

    let detected = detect_source_identity_with_provider(request("operator-root"), &provider)
        .expect("detect volume");

    assert_eq!(detected.record.source_identity, "volume:vol-123");
    assert_eq!(detected.record.source_kind, "local_volume");
    assert_eq!(
        detected.record.transport_uri,
        "qnc+local://localhost/volume/vol-123"
    );
    assert_eq!(detected.confidence, SourceIdentityConfidence::Medium);
    assert_eq!(detected.identity_basis, "volume_uuid");
}

#[test]
fn marker_source_identity_overrides_generated_identity() {
    let provider = FakeProvider(LocalSourceEvidence {
        marker_source_identity: Some("card:sony:explicit-sn".into()),
        marker_source_kind: Some("local_card".into()),
        marker_display_name: Some("Sony Card".into()),
        media_serial: Some("SN-IGNORED".into()),
        root_exists: true,
        ..Default::default()
    });

    let detected = detect_source_identity_with_provider(request("operator-root"), &provider)
        .expect("detect marker");

    assert_eq!(detected.record.source_identity, "card:sony:explicit-sn");
    assert_eq!(detected.record.display_name, "Sony Card");
    assert_eq!(
        detected.record.transport_uri,
        "qnc+local://localhost/source/card_sony_explicit-sn"
    );
    assert_eq!(detected.identity_basis, "marker_source_identity");
}

#[test]
fn fallback_root_signature_is_stable_across_mount_paths() {
    let evidence = LocalSourceEvidence {
        top_level_entries: vec!["DCIM".into(), "PRIVATE".into()],
        camera_layout: vec!["DCIM".into(), "PRIVATE".into()],
        root_exists: true,
        ..Default::default()
    };
    let provider = FakeProvider(evidence);

    let first =
        detect_source_identity_with_provider(request("operator-root-a"), &provider).unwrap();
    let second =
        detect_source_identity_with_provider(request("operator-root-b"), &provider).unwrap();

    assert_eq!(first.record.source_identity, second.record.source_identity);
    assert!(first.record.source_identity.starts_with("local:"));
    assert!(first
        .record
        .transport_uri
        .starts_with("qnc+local://localhost/fallback/"));
    assert_eq!(first.confidence, SourceIdentityConfidence::Fallback);
}

#[test]
fn local_source_without_os_neutral_evidence_is_rejected() {
    let provider = FakeProvider(LocalSourceEvidence::default());
    let err = detect_source_identity_with_provider(request("operator-root"), &provider)
        .expect_err("missing evidence should fail");

    assert!(matches!(
        err,
        SourceIdentityError::InsufficientLocalEvidence(_)
    ));
}

#[test]
fn local_serial_transport_does_not_include_input_path() {
    let provider = FakeProvider(LocalSourceEvidence {
        media_serial: Some("SN-001".into()),
        volume_label: Some("MEDIA_CARD_A".into()),
        root_exists: true,
        ..Default::default()
    });
    let detected =
        detect_source_identity_with_provider(request("operator-root"), &provider).unwrap();

    assert!(!detected.record.transport_uri.contains("operator-root"));
    assert_eq!(
        detected.record.transport_uri,
        "qnc+local://localhost/card/sn-001"
    );
}

#[test]
fn local_card_identity_does_not_depend_on_volume_label() {
    let media_a = FakeProvider(LocalSourceEvidence {
        media_serial: Some("SN-001".into()),
        volume_label: Some("MEDIA_CARD_A".into()),
        root_exists: true,
        ..Default::default()
    });
    let media_b = FakeProvider(LocalSourceEvidence {
        media_serial: Some("SN-001".into()),
        volume_label: Some("RENAMED_CARD".into()),
        root_exists: true,
        ..Default::default()
    });

    let detected_a =
        detect_source_identity_with_provider(request("operator-root-a"), &media_a).unwrap();
    let detected_b =
        detect_source_identity_with_provider(request("operator-root-b"), &media_b).unwrap();

    assert_eq!(detected_a.record.source_identity, "card:sn-001");
    assert_eq!(
        detected_a.record.source_identity,
        detected_b.record.source_identity
    );
    assert_eq!(detected_a.record.display_name, "MEDIA_CARD_A");
    assert_eq!(detected_b.record.display_name, "RENAMED_CARD");
}

#[test]
fn local_card_uri_and_os_path_share_source_identity() {
    let provider = FakeProvider(LocalSourceEvidence {
        media_serial: Some("SN-001".into()),
        volume_label: Some("MEDIA_CARD_A".into()),
        root_exists: true,
        ..Default::default()
    });

    let from_os_path =
        detect_source_identity_with_provider(request("operator-root"), &provider).unwrap();
    let from_transport = detect_source_identity_with_provider(
        request("qnc+local://localhost/card/SN-001"),
        &NoMedium,
    )
    .unwrap();

    assert_eq!(from_os_path.record.source_identity, "card:sn-001");
    assert_eq!(
        from_os_path.record.source_identity,
        from_transport.record.source_identity
    );
}

#[test]
fn qnc_lan_uri_becomes_lan_transport_identity() {
    let detected =
        detect_source_identity_with_provider(request("qnc+lan://nas-qnc/ingest/cards/A001"), &NoMedium)
            .expect("detect lan uri");

    assert_eq!(detected.record.source_kind, "lan_share");
    assert_eq!(
        detected.record.source_identity,
        "lan:nas-qnc:ingest_cards_a001"
    );
    assert_eq!(
        detected.record.transport_uri,
        "qnc+lan://nas-qnc/ingest/cards/A001"
    );
}

#[test]
fn lan_uri_path_is_normalized() {
    let detected =
        detect_source_identity_with_provider(request("qnc+lan://NAS-QNC/Ingest/Cards/A001"), &NoMedium)
            .expect("detect lan uri");

    assert_eq!(
        detected.record.source_identity,
        "lan:nas-qnc:ingest_cards_a001"
    );
    assert_eq!(
        detected.record.transport_uri,
        "qnc+lan://nas-qnc/Ingest/Cards/A001"
    );
}

#[test]
fn intranet_uri_path_becomes_gateway_identity() {
    let detected =
        detect_source_identity_with_provider(request("qnc://Ingest-Gateway/cards/2026-09-03"), &NoMedium)
            .unwrap();

    assert_eq!(detected.record.source_kind, "intranet_gateway");
    assert_eq!(
        detected.record.source_identity,
        "intranet:ingest-gateway:cards_2026-09-03"
    );
    assert_eq!(
        detected.record.transport_uri,
        "qnc+intranet://ingest-gateway/cards/2026-09-03"
    );
}

#[test]
fn qnc_local_card_uri_is_os_neutral_identity_input() {
    let detected = detect_source_identity_with_provider(
        request("qnc+local://localhost/card/SN-001").with_display_name("Operator Card"),
        &NoMedium,
    )
    .expect("detect qnc local");

    assert_eq!(detected.record.source_identity, "card:sn-001");
    assert_eq!(detected.record.source_kind, "local_card");
    assert_eq!(detected.record.display_name, "Operator Card");
    assert_eq!(
        detected.record.transport_uri,
        "qnc+local://localhost/card/SN-001"
    );
    assert_eq!(detected.identity_basis, "local_transport_card");
}

#[test]
fn qnc_local_uri_rejects_os_path_like_endpoint() {
    let err = detect_source_identity_with_provider(request("qnc+local://localhost/drive-root"), &NoMedium)
        .expect_err("non-contract local endpoint should fail");

    assert!(matches!(err, SourceIdentityError::InvalidLocation(_)));
}

#[test]
fn windows_volume_root_uses_drive_root_for_nested_paths() {
    assert_eq!(
        windows_volume_root("E:\\DCIM\\100QNC"),
        Some("E:\\".into())
    );
}

#[test]
fn windows_volume_root_uses_unc_share_root_for_nested_paths() {
    assert_eq!(
        windows_volume_root("\\\\nas-qnc\\cards\\A001\\DCIM"),
        Some("\\\\nas-qnc\\cards\\".into())
    );
}

#[test]
fn empty_location_is_rejected() {
    let err = detect_source_identity_with_provider(request("   "), &NoMedium)
        .expect_err("empty should fail");
    assert_eq!(err, SourceIdentityError::EmptyLocation);
}

#[test]
fn file_scheme_is_rejected_as_unstable_transport() {
    let err = detect_source_identity_with_provider(request("file:///media/card"), &NoMedium)
        .expect_err("file URI should fail");
    assert_eq!(
        err.message(),
        "invalid source location: non-QNC URI scheme cannot be used as a stable transport path"
    );
}

#[test]
fn unc_path_becomes_lan_share_identity() {
    let detected =
        detect_source_identity_with_provider(request("\\\\NAS-QNC\\news\\day 1"), &NoMedium)
            .unwrap();
    assert_eq!(detected.record.source_kind, "lan_share");
    assert_eq!(detected.record.source_identity, "lan:nas-qnc:news_day_1");
    assert_eq!(detected.record.transport_uri, "qnc+lan://nas-qnc/news/day 1");
    assert_eq!(detected.record.display_name, "NAS-QNC news/day 1");

    let err = detect_source_identity_with_provider(request("//nas-qnc"), &NoMedium)
        .expect_err("share is required");
    assert_eq!(
        err,
        SourceIdentityError::InvalidLocation(
            "UNC location must include server and share: //nas-qnc".into()
        )
    );
}

#[test]
fn transport_uri_without_host_is_rejected() {
    let err = detect_source_identity_with_provider(request("qnc+lan:// /cards"), &NoMedium)
        .expect_err("host is required");
    assert_eq!(
        err,
        SourceIdentityError::InvalidLocation("transport URI host is empty".into())
    );
}

#[test]
fn local_transport_endpoints_name_volume_fallback_and_source() {
    let volume =
        detect_source_identity_with_provider(request("qnc+local://LOCALHOST/volume/VOL-9/"), &NoMedium)
            .unwrap();
    assert_eq!(volume.record.source_identity, "volume:vol-9");
    assert_eq!(volume.record.transport_uri, "qnc+local://localhost/volume/VOL-9");
    assert_eq!(volume.record.display_name, "volume VOL-9");
    assert_eq!(volume.confidence, SourceIdentityConfidence::Medium);

    let fallback = detect_source_identity_with_provider(
        request("qnc+local://localhost/fallback/0123abcd"),
        &NoMedium,
    )
    .unwrap();
    assert_eq!(fallback.record.source_identity, "local:0123abcd");
    assert_eq!(fallback.confidence, SourceIdentityConfidence::Fallback);

    let source = detect_source_identity_with_provider(
        request("qnc+local://localhost/source/card_sony_explicit-sn"),
        &NoMedium,
    )
    .unwrap();
    assert_eq!(source.record.source_identity, "card_sony_explicit-sn");
    assert_eq!(source.identity_basis, "local_transport_source");
}

#[test]
fn network_evidence_json_records_the_endpoint() {
    let detected =
        detect_source_identity_with_provider(request("qnc+lan://nas-qnc/ingest"), &NoMedium).unwrap();
    let evidence: serde_json::Value =
        serde_json::from_str(&detected.record.identity_evidence_json).unwrap();
    assert_eq!(evidence.pointer("/schema_version").and_then(|v| v.as_u64()), Some(1));
    assert_eq!(
        evidence.pointer("/network/share_or_gateway_path").and_then(|v| v.as_str()),
        Some("ingest")
    );
    assert_eq!(evidence.pointer("/identity_basis").and_then(|v| v.as_str()), Some("transport_endpoint"));
    assert!(evidence.pointer("/local").unwrap().is_null());
    assert!(detected
        .record
        .identity_evidence_json
        .starts_with(r#"{"schema_version":1,"input_location":"qnc+lan://nas-qnc/ingest","#));
}

#[test]
fn local_display_name_falls_back_to_path_leaf() {
    let provider = FakeProvider(LocalSourceEvidence {
        media_serial: Some("  SN 7  ".into()),
        ..Default::default()
    });
    let detected =
        detect_source_identity_with_provider(request(" D:\\Media\\Card7\\ "), &provider).unwrap();
    assert_eq!(detected.record.display_name, "Card7");
    assert_eq!(detected.record.source_identity, "card:sn_7");
    assert!(detected.record.fallback_fingerprint.is_none());

    let drive = local_identity_from_evidence(
        &request("E:\\"),
        &LocalSourceEvidence { volume_uuid: Some("V".into()), ..Default::default() },
    )
    .unwrap();
    assert_eq!(drive.record.display_name, "E:");
}

#[test]
fn marker_transport_uri_is_kept_only_when_it_is_qnc_transport() {
    let kept = local_identity_from_evidence(
        &request("operator-root"),
        &LocalSourceEvidence {
            media_serial: Some("SN-1".into()),
            marker_transport_uri: Some(" qnc+lan://nas/cards/SN-1 ".into()),
            ..Default::default()
        },
    )
    .unwrap();
    assert_eq!(kept.record.transport_uri, "qnc+lan://nas/cards/SN-1");

    let replaced = local_identity_from_evidence(
        &request("operator-root"),
        &LocalSourceEvidence {
            media_serial: Some("SN-1".into()),
            marker_transport_uri: Some("file:///mnt/card".into()),
            ..Default::default()
        },
    )
    .unwrap();
    assert_eq!(replaced.record.transport_uri, "qnc+local://localhost/card/sn-1");
}

#[test]
fn fallback_fingerprint_is_twelve_digest_bytes_of_the_root_signature() {
    let detected = local_identity_from_evidence(
        &request("operator-root"),
        &LocalSourceEvidence {
            volume_label: Some("CARD".into()),
            top_level_entries: vec!["DCIM".into()],
            camera_layout: vec!["DCIM".into()],
            ..Default::default()
        },
    )
    .unwrap();
    let payload = r#"{"camera_layout":["DCIM"],"top_level_entries":["DCIM"],"volume_label":"CARD"}"#;
    let digest = sha2::Sha256::digest(payload.as_bytes());
    let expected: String = digest.iter().take(12).map(|b| format!("{b:02x}")).collect();
    assert_eq!(detected.record.fallback_fingerprint.as_deref(), Some(expected.as_str()));
    assert_eq!(detected.record.source_identity, format!("local:{expected}"));
}

#[test]
fn normalized_id_parts_collapse_separators() {
    assert_eq!(normalize_id_part("  Card: Sony / A7 __ X  "), "card_sony_a7_x");
    assert_eq!(normalize_id_part("___"), "");
    assert_eq!(normalize_id_part("SN-001.b"), "sn-001.b");
}

#[test]
fn volume_information_fills_only_missing_evidence() {
    let info = Some(VolumeInformation { serial_number: 0xde66_6c9f, label: "MEDIA_CARD_A".into() });
    let mut evidence = LocalSourceEvidence::default();
    enrich_platform_volume_identity(&mut evidence, &Some("E:\\".into()), &info);
    assert_eq!(evidence.volume_uuid.as_deref(), Some("windows-volume-serial-de666c9f"));
    assert_eq!(evidence.volume_label.as_deref(), Some("MEDIA_CARD_A"));
    assert_eq!(evidence.provider_notes, vec!["windows volume root: E:\\".to_string()]);

    let mut marked = LocalSourceEvidence {
        volume_uuid: Some("uuid-1".into()),
        volume_label: Some("KEEP".into()),
        ..Default::default()
    };
    enrich_platform_volume_identity(&mut marked, &Some("E:\\".into()), &info);
    assert_eq!(marked.volume_uuid.as_deref(), Some("uuid-1"));
    assert_eq!(marked.volume_label.as_deref(), Some("KEEP"));

    let mut small = LocalSourceEvidence::default();
    let zero = Some(VolumeInformation { serial_number: 0, label: String::new() });
    enrich_platform_volume_identity(&mut small, &Some("F:\\".into()), &zero);
    assert_eq!(small.volume_uuid, None);
    assert_eq!(small.volume_label, None);
    let tiny = Some(VolumeInformation { serial_number: 0x2a, label: String::new() });
    enrich_platform_volume_identity(&mut small, &Some("F:\\".into()), &tiny);
    assert_eq!(small.volume_uuid.as_deref(), Some("windows-volume-serial-0000002a"));

    let mut unanswered = LocalSourceEvidence::default();
    enrich_platform_volume_identity(&mut unanswered, &Some("G:\\".into()), &None);
    enrich_platform_volume_identity(&mut unanswered, &None, &info);
    assert_eq!(
        unanswered.provider_notes,
        vec![
            "windows volume identity unavailable: G:\\".to_string(),
            "windows volume root unavailable".to_string()
        ]
    );
    assert_eq!(unanswered.volume_uuid, None);
}

#[test]
fn marker_fields_fill_the_evidence_by_priority() {
    let mut evidence = LocalSourceEvidence {
        root_exists: true,
        volume_label: Some("FROM_ROOT".into()),
        provider_notes: vec!["note".into()],
        ..Default::default()
    };
    ingestqnc::source_identity::record_marker(
        &mut evidence,
        "/media/card/.qnc-source-identity.json".into(),
        ingestqnc::source_identity::MarkerFields {
            source_identity: None,
            source_kind: Some("local_card".into()),
            display_name: Some("Card A".into()),
            transport_uri: None,
            media_serial: Some("  ".into()),
            card_serial: None,
            device_serial: Some(" DEV-9 ".into()),
            serial: Some("SN-1".into()),
            volume_uuid: None,
            filesystem_uuid: Some("fs-uuid".into()),
            volume_label: None,
        },
    );
    assert_eq!(evidence.marker_path.as_deref(), Some("/media/card/.qnc-source-identity.json"));
    assert_eq!(evidence.media_serial.as_deref(), Some("DEV-9"));
    assert_eq!(evidence.volume_uuid.as_deref(), Some("fs-uuid"));
    assert_eq!(evidence.volume_label, None);
    assert_eq!(evidence.marker_display_name.as_deref(), Some("Card A"));
    assert!(evidence.root_exists);
    assert_eq!(evidence.provider_notes, vec!["note".to_string()]);
}
