use ingestqnc::db::{
    clip_upsert_result, content_schema_step, rescanned_timestamp, schema_step, stable_clip_id,
    stable_location_id, ClipDiscoveryRecord, ClipTimestampColumns, SchemaStep, UpsertKind,
};

#[test]
fn stable_ids_are_normalized() {
    assert_eq!(
        stable_clip_id("card:media_card_a:sn-001", "content-sample-sha256-v1:ABC"),
        "clip:card:media_card_a:sn-001:content-sample-sha256-v1:abc"
    );
    assert_eq!(
        stable_location_id(" Card:SN 1 ", "qnc+local://localhost/card/sn-1"),
        "location:card:sn_1:qnc_local:__localhost_card_sn-1"
    );
}

#[test]
fn schema_steps_follow_the_version() {
    assert_eq!(schema_step("registry", 0, 1), Ok(SchemaStep::Create));
    assert_eq!(schema_step("registry", 1, 1), Ok(SchemaStep::Ready));
    assert_eq!(
        schema_step("wave", 3, 1),
        Err("IngestQNC wave DB version 3 is newer than supported version 1".to_string())
    );
    assert_eq!(content_schema_step(0), Ok(SchemaStep::Create));
    assert_eq!(content_schema_step(1), Ok(SchemaStep::UpgradeToV2));
    assert_eq!(content_schema_step(2), Ok(SchemaStep::Ready));
    assert_eq!(
        content_schema_step(7),
        Err("IngestQNC content DB version 7 is newer than supported version 2".to_string())
    );
}

#[test]
fn clip_upserts_keep_existing_ids() {
    let record = ClipDiscoveryRecord {
        source_identity: "card:sn-1".into(),
        clip_fingerprint: "fp-1".into(),
        relative_path: "DCIM/A.MOV".into(),
        original_name: "A.MOV".into(),
        extension: Some("mov".into()),
        poster_relative_path: None,
        poster_source: None,
        file_size_bytes: Some(1),
        clip_created_at: None,
        clip_created_at_source: "unknown".into(),
        clip_created_at_offset: None,
        timestamp_evidence_json: "{}".into(),
        seen_at: "t".into(),
    };
    let inserted = clip_upsert_result(None, &record);
    assert_eq!(inserted.kind, UpsertKind::Inserted);
    assert_eq!(inserted.clip_id, "clip:card:sn-1:fp-1");
    let updated = clip_upsert_result(Some("clip:old".into()), &record);
    assert_eq!(updated.kind, UpsertKind::Updated);
    assert_eq!(updated.clip_id, "clip:old");
}

fn scanned(created_at: Option<&str>, source: &str) -> ClipDiscoveryRecord {
    ClipDiscoveryRecord {
        source_identity: "card:sn-1".into(),
        clip_fingerprint: "fp-1".into(),
        relative_path: "DCIM/A.MOV".into(),
        original_name: "A.MOV".into(),
        extension: Some("mov".into()),
        poster_relative_path: None,
        poster_source: None,
        file_size_bytes: Some(1),
        clip_created_at: created_at.map(str::to_owned),
        clip_created_at_source: source.into(),
        clip_created_at_offset: None,
        timestamp_evidence_json: "{\"scan\":1}".into(),
        seen_at: "t2".into(),
    }
}

#[test]
fn embedded_timestamps_survive_a_rescan() {
    let embedded = ClipTimestampColumns {
        clip_created_at: Some("2026-09-03T12:14:22+02:00".into()),
        clip_created_at_source: "embedded_camera".into(),
        clip_created_at_offset: Some("+02:00".into()),
        timestamp_evidence_json: "{\"probe\":1}".into(),
    };
    let kept = rescanned_timestamp(
        &embedded,
        &scanned(Some("2026-09-04T08:00:00Z"), "filesystem_created"),
    );
    assert_eq!(kept, embedded);

    let filesystem = ClipTimestampColumns {
        clip_created_at: Some("2026-09-01T00:00:00Z".into()),
        clip_created_at_source: "filesystem_modified".into(),
        clip_created_at_offset: None,
        timestamp_evidence_json: "{}".into(),
    };
    let replaced = rescanned_timestamp(
        &filesystem,
        &scanned(Some("2026-09-04T08:00:00Z"), "filesystem_created"),
    );
    assert_eq!(replaced.clip_created_at.as_deref(), Some("2026-09-04T08:00:00Z"));
    assert_eq!(replaced.clip_created_at_source, "filesystem_created");
    assert_eq!(replaced.timestamp_evidence_json, "{\"scan\":1}");

    let without = rescanned_timestamp(&filesystem, &scanned(None, "unknown"));
    assert_eq!(without.clip_created_at.as_deref(), Some("2026-09-01T00:00:00Z"));
    assert_eq!(without.clip_created_at_source, "filesystem_modified");
    assert_eq!(without.timestamp_evidence_json, "{\"scan\":1}");
}
