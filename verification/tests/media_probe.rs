use ingestqnc::media_probe::{
    error_probe_json, find_timestamp_in_tags, parse_rate, probe_candidates, probe_facts_readable,
    requested_clip_ids, short_error, checked_snapshot_from_output, snapshot_from_output,
    snapshot_from_parsed, stable_probe_id, summarize_probe,
    timestamp_offset, timestamp_update, transport_segments, ProbeClipCandidate,
    ProbeCommandOutput, ProbeFacts, ProbeReport, ProbeRequest, ProbeStream, ProbeTag,
};
use ingestqnc::probe_output::parse_probe_stdout;

const SAMPLE_STDOUT: &str = r#"{
  "streams": [
    {"index": 0, "codec_type": "video", "codec_name": "h264", "width": 1920, "height": 1080,
     "avg_frame_rate": "30000/1001", "tags": {"creation_time": "2026-09-03T10:14:22Z"}},
    {"index": 1, "codec_type": "audio", "codec_name": "aac"}
  ],
  "format": {
    "duration": "12.240000",
    "tags": {"com.apple.quicktime.creationdate": "2026-09-03T12:14:22+02:00"}
  }
}"#;

fn tag(key: &str, value: &str) -> ProbeTag {
    ProbeTag { key: key.into(), value: Some(value.into()) }
}

fn sample_facts() -> ProbeFacts {
    ProbeFacts {
        streams: vec![
            ProbeStream {
                codec_type: Some("video".into()),
                codec_name: Some("h264".into()),
                width: Some(1920),
                height: Some(1080),
                avg_frame_rate: Some("30000/1001".into()),
                r_frame_rate: None,
                tags: Some(vec![tag("creation_time", "2026-09-03T10:14:22Z")]),
            },
            ProbeStream {
                codec_type: Some("audio".into()),
                codec_name: Some("aac".into()),
                width: None,
                height: None,
                avg_frame_rate: None,
                r_frame_rate: None,
                tags: None,
            },
        ],
        format_tags: Some(vec![tag(
            "com.apple.quicktime.creationdate",
            "2026-09-03T12:14:22+02:00",
        )]),
    }
}

#[test]
fn summarize_probe_extracts_video_audio_fps_and_camera_timestamp() {
    let facts = sample_facts();
    assert!(probe_facts_readable(&facts));
    let summary = summarize_probe(&facts);

    assert_eq!(summary.video_codec.as_deref(), Some("h264"));
    assert_eq!(summary.audio_codec.as_deref(), Some("aac"));
    assert_eq!(summary.width, Some(1920));
    assert_eq!(summary.height, Some(1080));
    assert_eq!(summary.fps, Some((30000, 1001)));
    let timestamp = summary.creation_timestamp.unwrap();
    assert_eq!(timestamp.value, "2026-09-03T12:14:22+02:00");
    assert_eq!(timestamp.source, "embedded_camera");
    assert_eq!(timestamp.offset.as_deref(), Some("+02:00"));
    assert_eq!(timestamp.tag_path, "format.tags");
}

#[test]
fn container_creation_time_comes_from_the_first_stream_with_one() {
    let mut facts = sample_facts();
    facts.format_tags = Some(vec![ProbeTag { key: "DATE".into(), value: None }]);
    let timestamp = summarize_probe(&facts).creation_timestamp.unwrap();
    assert_eq!(timestamp.source, "embedded_container");
    assert_eq!(timestamp.tag_path, "streams[0].tags");
    assert_eq!(timestamp.tag_key, "creation_time");
    assert_eq!(timestamp.offset.as_deref(), Some("+00:00"));

    let found = find_timestamp_in_tags(&Some(vec![tag("Date", "2026-09-03 12:00")]), "p").unwrap();
    assert_eq!(found.tag_key, "Date");
    assert_eq!(found.source, "embedded_camera");
    assert_eq!(found.offset, None);
    assert!(find_timestamp_in_tags(&None, "p").is_none());
}

#[test]
fn rates_and_offsets() {
    assert_eq!(parse_rate(" 25/1 "), Some((25, 1)));
    assert_eq!(parse_rate("0/0"), None);
    assert_eq!(parse_rate("+24000/+1001"), Some((24000, 1001)));
    assert_eq!(parse_rate("30000 / 1001"), None);
    assert_eq!(parse_rate("9223372036854775808/1"), None);
    assert_eq!(parse_rate("abc"), None);
    assert_eq!(timestamp_offset("2026-09-03T12:14:22-05:30"), Some("-05:30".into()));
    assert_eq!(timestamp_offset(" 2026-09-03T12:14:22z "), Some("+00:00".into()));
    assert_eq!(timestamp_offset("12:00"), None);
}

#[test]
fn probe_ids_errors_and_json() {
    assert_eq!(stable_probe_id("clip:a:b"), "probe:clip:a:b:ffprobe-full-v1");
    assert_eq!(short_error("  invalid data  ", "fallback"), "invalid data");
    assert_eq!(short_error("   ", "ffprobe exited with an error"), "ffprobe exited with an error");
    let long = "x".repeat(600);
    assert_eq!(short_error(&long, ""), format!("{}...", "x".repeat(500)));
    assert_eq!(
        error_probe_json(Some(1), "", "invalid data", "ffprobe exited with an error"),
        r#"{"exit_code":1,"message":"ffprobe exited with an error","probe_version":"ffprobe-full-v1","schema_version":1,"status":"error","stderr":"invalid data","stdout":""}"#
    );
    let none = error_probe_json(None, "out", "err\n", "m");
    let value: serde_json::Value = serde_json::from_str(&none).unwrap();
    assert!(value.pointer("/exit_code").unwrap().is_null());
    assert_eq!(value.pointer("/stderr").and_then(|v| v.as_str()), Some("err\n"));
}

#[test]
fn timestamp_updates_record_their_tag() {
    let timestamp = summarize_probe(&sample_facts()).creation_timestamp.unwrap();
    let update = timestamp_update("clip:1", &timestamp);
    assert_eq!(update.clip_created_at, "2026-09-03T12:14:22+02:00");
    assert_eq!(update.clip_created_at_offset.as_deref(), Some("+02:00"));
    let value: serde_json::Value = serde_json::from_str(&update.timestamp_evidence_json).unwrap();
    assert_eq!(value.pointer("/tag_path").and_then(|v| v.as_str()), Some("format.tags"));
    assert_eq!(value.pointer("/source").and_then(|v| v.as_str()), Some("media_probe"));
    assert_eq!(serde_json::to_string(&value).unwrap(), update.timestamp_evidence_json);
}

#[test]
fn requests_select_distinct_trimmed_ids() {
    let ids = requested_clip_ids(&vec![" a ".into(), "".into(), "a".into(), "b".into()]);
    assert_eq!(ids, vec!["a".to_string(), "b".to_string()]);
    let mut report = ProbeReport::new("card:sn-1", ids.len(), 1);
    report.record_probe(true);
    assert_eq!((report.probes_ok, report.probes_error, report.probes_skipped), (1, 0, 1));
    let request = ProbeRequest::new("card:sn-1", "/media/card", ids, "t");
    assert_eq!(request.selected_clip_ids.len(), 2);
    assert_eq!(
        transport_segments("DCIM/ 100QNC /A001.MOV", true, false),
        Some(vec!["DCIM".into(), "100QNC".into(), "A001.MOV".into()])
    );
    assert_eq!(transport_segments("DCIM//A001.MOV", true, false), None);
    assert_eq!(transport_segments("../A001.MOV", true, false), None);
    assert_eq!(transport_segments("./A001.MOV", false, false), None);
    assert_eq!(transport_segments("./A001.MOV", true, false), Some(vec![".".into(), "A001.MOV".into()]));
    assert_eq!(transport_segments("C:", true, true), None);
    assert_eq!(transport_segments("DCIM/c:A001.MOV", true, true), None);
    assert_eq!(transport_segments("DCIM/C:", true, false), Some(vec!["DCIM".into(), "C:".into()]));
    assert_eq!(transport_segments("DCIM/1:A.MOV", true, true), Some(vec!["DCIM".into(), "1:A.MOV".into()]));
}

fn candidate(clip_id: &str, relative_path: &str) -> ProbeClipCandidate {
    ProbeClipCandidate { clip_id: clip_id.into(), relative_path: relative_path.into() }
}

fn output(success: bool, stdout: &str, stderr: &str) -> ProbeCommandOutput {
    ProbeCommandOutput {
        success,
        exit_code: Some(if success { 0 } else { 1 }),
        stdout: stdout.into(),
        stderr: stderr.into(),
    }
}

#[test]
fn candidates_keep_selected_clips_in_catalog_order() {
    let clips = vec![
        candidate("clip:a", "DCIM/A.MOV"),
        candidate("clip:b", "DCIM/B.MOV"),
        candidate("clip:c", "DCIM/C.MOV"),
    ];
    let chosen = probe_candidates(&clips, &vec!["clip:c".into(), "clip:a".into(), "clip:x".into()]);
    assert_eq!(chosen, vec![clips[0].clone(), clips[2].clone()]);
    assert!(probe_candidates(&clips, &Vec::new()).is_empty());
}

#[test]
fn failed_run_records_an_error_snapshot() {
    let (snapshot, update) = snapshot_from_output(
        &candidate("clip:a", "A.MOV"),
        &output(false, "", "  moov atom not found \n"),
        "2026-09-03T10:05:00Z",
        None,
    );
    assert!(update.is_none());
    assert_eq!(snapshot.status, "error");
    assert_eq!(snapshot.probe_id, "probe:clip:a:ffprobe-full-v1");
    assert_eq!(snapshot.probed_at, "2026-09-03T10:05:00Z");
    assert_eq!(snapshot.error.as_deref(), Some("moov atom not found"));
    assert_eq!(snapshot.duration_bits, None);
    assert_eq!(
        snapshot.raw_probe_json,
        error_probe_json(Some(1), "", "  moov atom not found \n", "ffprobe exited with an error")
    );
}

#[test]
fn unreadable_output_records_the_parse_error() {
    let (snapshot, update) = snapshot_from_output(
        &candidate("clip:a", "A.MOV"),
        &output(true, "not json", ""),
        "t",
        None,
    );
    assert!(update.is_none());
    assert_eq!(snapshot.status, "error");
    let parser_error = serde_json::from_str::<serde_json::Value>("not json").unwrap_err().to_string();
    assert_eq!(
        snapshot.error.as_deref(),
        Some(format!("ffprobe JSON parse failed: {parser_error}").as_str())
    );
    let value: serde_json::Value = serde_json::from_str(&snapshot.raw_probe_json).unwrap();
    assert_eq!(value.pointer("/stdout").and_then(|v| v.as_str()), Some("not json"));
    assert_eq!(value.pointer("/exit_code").and_then(|v| v.as_i64()), Some(0));
}

#[test]
fn read_output_records_summary_and_creation_time() {
    let bits = 12.24f64.to_bits();
    let (snapshot, update) = snapshot_from_output(
        &candidate("clip:a", "A.MOV"),
        &output(true, SAMPLE_STDOUT, ""),
        "t",
        Some(bits),
    );
    assert_eq!(snapshot.status, "ok");
    assert_eq!(snapshot.duration_bits.map(f64::from_bits), Some(12.24));
    assert_eq!(snapshot.video_codec.as_deref(), Some("h264"));
    assert_eq!(snapshot.audio_codec.as_deref(), Some("aac"));
    assert_eq!((snapshot.width, snapshot.height), (Some(1920), Some(1080)));
    assert_eq!((snapshot.fps_num, snapshot.fps_den), (Some(30000), Some(1001)));
    assert_eq!(snapshot.raw_probe_json, SAMPLE_STDOUT);
    assert_eq!(snapshot.error, None);
    let update = update.unwrap();
    assert_eq!(update.clip_id, "clip:a");
    assert_eq!(update.clip_created_at, "2026-09-03T12:14:22+02:00");
    assert_eq!(update.clip_created_at_source, "embedded_camera");

    let mut bare = sample_facts();
    bare.format_tags = None;
    bare.streams[0].tags = None;
    let (_, none) = snapshot_from_parsed(
        &candidate("clip:b", "B.MOV"),
        &output(true, "{}", ""),
        "t",
        None,
        Ok(bare),
    );
    assert!(none.is_none());
    let (snapshot, none) =
        snapshot_from_output(&candidate("clip:b", "B.MOV"), &output(true, "{}", ""), "t", None);
    assert!(none.is_none());
    assert_eq!(snapshot.status, "ok");
    assert_eq!(snapshot.video_codec, None);
}

#[test]
fn parsed_facts_record_summary_and_creation_time() {
    let (snapshot, update) = snapshot_from_parsed(
        &candidate("clip:a", "A.MOV"),
        &output(true, "{}", ""),
        "t",
        None,
        Ok(sample_facts()),
    );
    assert_eq!(snapshot.status, "ok");
    assert_eq!(snapshot.video_codec.as_deref(), Some("h264"));
    assert_eq!((snapshot.fps_num, snapshot.fps_den), (Some(30000), Some(1001)));
    assert_eq!(update.unwrap().clip_created_at_source, "embedded_camera");
}

#[test]
fn stdout_is_read_into_streams_and_tags() {
    assert_eq!(parse_probe_stdout(SAMPLE_STDOUT), Ok(sample_facts()));
    let facts = parse_probe_stdout(
        r#"{"streams": [{"codec_type": 7, "width": "wide", "tags": {"a/b~c": "v", "n": 3}}],
            "format": {"tags": 5}}"#,
    )
    .unwrap();
    assert_eq!(facts.format_tags, None);
    assert_eq!(facts.streams.len(), 1);
    let stream = &facts.streams[0];
    assert_eq!((stream.codec_type.clone(), stream.width), (None, None));
    assert_eq!(
        stream.tags,
        Some(vec![tag("a/b~c", "v"), ProbeTag { key: "n".into(), value: None }])
    );
    let empty = parse_probe_stdout("[1, 2]").unwrap();
    assert!(empty.streams.is_empty() && empty.format_tags.is_none());
    let error = parse_probe_stdout("{\"streams\": ").unwrap_err();
    assert_eq!(
        error,
        serde_json::from_str::<serde_json::Value>("{\"streams\": ").unwrap_err().to_string()
    );
}

#[test]
fn unreadable_timestamp_offset_is_refused_before_recording() {
    let stdout = r#"{"format": {"tags": {"date": "x\u00e912345"}}}"#;
    assert!(checked_snapshot_from_output(&candidate("clip:a", "A.MOV"), &output(true, stdout, ""), "t", None)
        .is_none());
    let (snapshot, _) = checked_snapshot_from_output(
        &candidate("clip:a", "A.MOV"),
        &output(true, SAMPLE_STDOUT, ""),
        "t",
        None,
    )
    .unwrap();
    assert_eq!(snapshot.status, "ok");
    assert!(checked_snapshot_from_output(&candidate("clip:a", "A.MOV"), &output(false, stdout, ""), "t", None)
        .is_some());
}

#[test]
fn only_the_chosen_timestamp_needs_a_readable_offset() {
    let mut facts = sample_facts();
    facts.streams[1].tags = Some(vec![tag("title", "ab\u{e9}cdef")]);
    assert!(probe_facts_readable(&facts));
    facts.format_tags = Some(vec![tag("date", "x\u{e9}12345")]);
    assert!(!probe_facts_readable(&facts));
}
