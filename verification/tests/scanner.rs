use sha2::Digest;
use std::time::{Duration, UNIX_EPOCH};

use ingestqnc::db::UpsertKind;
use ingestqnc::scanner::{
    civil_from_unix_days, clip_base_stem, clip_fingerprint, clip_record, find_poster_for_media,
    fingerprint_sample_ranges,
    format_unix_utc, is_media_extension, is_poster_extension, normalized_extension,
    poster_match_key, poster_same_directory, poster_source, relative_transport_path,
    system_time_to_utc_text, timestamp_evidence, PathPart, PosterCandidate, RelativePathError,
    ScanReport, ScanRequest,
};

#[test]
fn unix_epoch_timestamp_formats_as_utc() {
    assert_eq!(
        system_time_to_utc_text(UNIX_EPOCH + Duration::from_secs(0)).as_deref(),
        Some("1970-01-01T00:00:00Z")
    );
    assert_eq!(
        system_time_to_utc_text(UNIX_EPOCH + Duration::from_secs(86_400)).as_deref(),
        Some("1970-01-02T00:00:00Z")
    );
}

#[test]
fn fractions_and_calendar_days() {
    assert_eq!(format_unix_utc(1_788_430_462, 500_000_000), "2026-09-03T10:14:22.5Z");
    assert_eq!(format_unix_utc(1_788_430_462, 120), "2026-09-03T10:14:22.00000012Z");
    assert_eq!(civil_from_unix_days(0), (1970, 1, 1));
    assert_eq!(civil_from_unix_days(-1), (1969, 12, 31));
    assert_eq!(civil_from_unix_days(11_016), (2000, 2, 29));
    assert!(system_time_to_utc_text(UNIX_EPOCH - Duration::from_secs(1)).is_none());
}

#[test]
fn media_and_poster_extensions() {
    assert_eq!(normalized_extension("A001_C001.MOV"), Some("mov".into()));
    assert_eq!(normalized_extension(".hidden"), None);
    assert_eq!(normalized_extension("notes."), None);
    assert_eq!(normalized_extension("archive.tar. GZ "), Some("gz".into()));
    assert!(is_media_extension(&Some("mxf".into())));
    assert!(!is_media_extension(&Some("txt".into())));
    assert!(!is_media_extension(&None));
    assert!(is_poster_extension(&Some("thm".into())));
    assert_eq!(poster_source(&Some("jpeg".into())), "card_jpg");
    assert_eq!(poster_source(&Some("png".into())), "card_poster");
}

#[test]
fn clip_stems_drop_the_take_suffix() {
    assert_eq!(clip_base_stem("A001_C001"), "A001_");
    assert_eq!(clip_base_stem(" C0001 "), "C0001");
    assert_eq!(clip_base_stem("clip"), "cli");
    assert_eq!(clip_base_stem("12345"), "12345");
    assert_eq!(clip_base_stem(""), "");
    assert_eq!(poster_match_key("A001_C001"), "a001_");
}

#[test]
fn posters_prefer_thm_then_same_directory_then_path() {
    let candidates = vec![
        PosterCandidate { relative_path: "JPG/A001.JPG".into(), source: "card_jpg".into(), same_directory: false },
        PosterCandidate { relative_path: "THMBNL/A001.THM".into(), source: "card_thm".into(), same_directory: false },
        PosterCandidate { relative_path: "DCIM/A001.THM".into(), source: "card_thm".into(), same_directory: false },
    ];
    let chosen = find_poster_for_media(&Some("E:\\card\\DCIM".into()), &candidates).unwrap();
    assert_eq!(chosen.relative_path, "DCIM/A001.THM");
    assert!(chosen.same_directory);
    let chosen = find_poster_for_media(&Some("/media/other".into()), &candidates).unwrap();
    assert_eq!(chosen.relative_path, "DCIM/A001.THM");
    assert!(!chosen.same_directory);
    assert!(find_poster_for_media(&None, &vec![]).is_none());
    assert!(!poster_same_directory(&Some("/a".into()), "A001.THM"));
}

#[test]
fn relative_transport_paths_are_os_neutral() {
    let parts = vec![
        PathPart::Normal("PRIVATE".into()),
        PathPart::CurrentDir,
        PathPart::Normal("CLIP".into()),
        PathPart::Normal("A001 C001.mxf".into()),
    ];
    assert_eq!(relative_transport_path(&parts), Ok("PRIVATE/CLIP/A001 C001.mxf".into()));
    assert_eq!(
        relative_transport_path(&vec![PathPart::Normal("a\\b".into())]),
        Err(RelativePathError::Invalid)
    );
    assert_eq!(
        relative_transport_path(&vec![PathPart::Normal("a".into()), PathPart::Other]),
        Err(RelativePathError::EscapesRoot)
    );
    assert_eq!(relative_transport_path(&vec![PathPart::CurrentDir]), Err(RelativePathError::Invalid));
}

#[test]
fn fingerprint_hashes_samples_not_paths() {
    let head = b"same clip bytes";
    let fp = clip_fingerprint(head.len() as u64, head, b"");
    let mut msg = Vec::new();
    msg.extend_from_slice(b"content-sample-sha256-v1");
    msg.extend_from_slice(&(head.len() as u64).to_le_bytes());
    msg.extend_from_slice(&0u64.to_le_bytes());
    msg.extend_from_slice(&(head.len() as u64).to_le_bytes());
    msg.extend_from_slice(head);
    let expected: String = sha2::Sha256::digest(&msg).iter().map(|b| format!("{b:02x}")).collect();
    assert_eq!(fp, format!("content-sample-sha256-v1:{expected}"));

    let big = 2 * 1024 * 1024u64;
    let with_tail = clip_fingerprint(big, b"h", b"t");
    let mut msg = Vec::new();
    msg.extend_from_slice(b"content-sample-sha256-v1");
    msg.extend_from_slice(&big.to_le_bytes());
    msg.extend_from_slice(&0u64.to_le_bytes());
    msg.extend_from_slice(&1u64.to_le_bytes());
    msg.extend_from_slice(b"h");
    msg.extend_from_slice(&(big - 1024 * 1024).to_le_bytes());
    msg.extend_from_slice(&1u64.to_le_bytes());
    msg.extend_from_slice(b"t");
    let expected: String = sha2::Sha256::digest(&msg).iter().map(|b| format!("{b:02x}")).collect();
    assert_eq!(with_tail, format!("content-sample-sha256-v1:{expected}"));
}

#[test]
fn timestamp_evidence_uses_filesystem_fallback_only() {
    let evidence = timestamp_evidence(Some("2026-09-03T10:00:00Z".into()), Some("2026-09-03T11:00:00Z".into()));
    assert_eq!(evidence.clip_created_at.as_deref(), Some("2026-09-03T10:00:00Z"));
    assert_eq!(evidence.clip_created_at_source, "filesystem_created");
    assert!(evidence
        .timestamp_evidence_json
        .contains("filesystem timestamps are fallback evidence"));
    let value: serde_json::Value = serde_json::from_str(&evidence.timestamp_evidence_json).unwrap();
    assert_eq!(value.pointer("/chosen_source").and_then(|v| v.as_str()), Some("filesystem_created"));

    let modified = timestamp_evidence(None, Some("m".into()));
    assert_eq!(modified.clip_created_at_source, "filesystem_modified");
    let unknown = timestamp_evidence(None, None);
    assert_eq!(unknown.clip_created_at_source, "unknown");
    assert!(unknown.clip_created_at.is_none());
    assert_eq!(
        unknown.timestamp_evidence_json,
        r#"{"schema_version":1,"chosen_source":"unknown","chosen_at":null,"filesystem_created_at":null,"filesystem_modified_at":null,"note":"filesystem timestamps are fallback evidence until MediaProbe writes embedded metadata"}"#
    );
}

#[test]
fn scan_reports_count_files_and_records_carry_posters() {
    let mut report = ScanReport::new("card:sn-1");
    report.record_file(None);
    report.record_file(Some(UpsertKind::Inserted));
    report.record_file(Some(UpsertKind::Updated));
    assert_eq!(
        (report.files_seen, report.media_files_seen, report.clips_inserted, report.clips_updated, report.skipped_non_media),
        (3, 2, 1, 1, 1)
    );
    let request = ScanRequest::new("card:sn-1", "/media/card", "t");
    assert_eq!(request.operator_access_root, "/media/card");

    let record = clip_record(
        "card:sn-1",
        "fp".into(),
        "DCIM/A001.MOV".into(),
        "A001.MOV".into(),
        Some("mov".into()),
        Some(PosterCandidate { relative_path: "THMBNL/A001.THM".into(), source: "card_thm".into(), same_directory: false }),
        12,
        timestamp_evidence(None, None),
        "t",
    );
    assert_eq!(record.poster_relative_path.as_deref(), Some("THMBNL/A001.THM"));
    assert_eq!(record.poster_source.as_deref(), Some("card_thm"));
    assert_eq!(record.file_size_bytes, Some(12));
    assert!(record.clip_created_at_offset.is_none());
}

#[test]
fn names_sort_stably_ignoring_ascii_case() {
    let names: Vec<String> = ["b", "DCIM", "a", "dcim", "B", "Private", "_x", "é"]
        .iter()
        .map(|s| s.to_string())
        .collect();
    let order = ingestqnc::scanner::order_ignoring_case(&names);
    let sorted: Vec<&str> = order.iter().map(|&i| names[i].as_str()).collect();
    let mut expected = names.clone();
    expected.sort_by_key(|name| name.to_ascii_lowercase());
    assert_eq!(sorted, expected.iter().map(String::as_str).collect::<Vec<_>>());
    assert_eq!(sorted, vec!["_x", "a", "b", "B", "DCIM", "dcim", "Private", "é"]);
    assert!(ingestqnc::scanner::order_ignoring_case(&Vec::new()).is_empty());
}

#[test]
fn requests_refuse_a_blank_source_identity() {
    assert_eq!(ingestqnc::scanner::ScanRequest::new(" card:sn-1 ", "/r", "t").checked_source_identity().as_deref(), Some("card:sn-1"));
    assert_eq!(ingestqnc::scanner::ScanRequest::new("  ", "/r", "t").checked_source_identity(), None);
    let probe = ingestqnc::media_probe::ProbeRequest::new("\tcard:sn-1", "/r", Vec::new(), "t");
    assert_eq!(probe.checked_source_identity().as_deref(), Some("card:sn-1"));
    let blank = ingestqnc::media_probe::ProbeRequest::new("", "/r", Vec::new(), "t");
    assert_eq!(blank.checked_source_identity(), None);
}

#[test]
fn fingerprint_reads_the_head_and_the_tail_of_long_files() {
    assert_eq!(fingerprint_sample_ranges(0), ((0, 0), None));
    assert_eq!(fingerprint_sample_ranges(1000), ((0, 1000), None));
    assert_eq!(fingerprint_sample_ranges(1048576), ((0, 1048576), None));
    assert_eq!(
        fingerprint_sample_ranges(3 * 1048576 + 5),
        ((0, 1048576), Some((2 * 1048576 + 5, 1048576)))
    );
}
