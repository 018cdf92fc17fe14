//! Records of the modular ingest databases and the stable row identifiers
//! derived from them. The SQL itself runs at the application edge; the rules
//! that decide identifiers, schema migration steps and clip upserts live here.
use vstd::prelude::*;
use crate::fmt::{dec_int, opt_view, push_dec_int};
use crate::text::{
    append, append_str, chars_of, is_alnum_char, is_ascii_alnum, lower_char, lower_char_exec,
    str_eq, string_of, trim, trim_both_char, trim_char, trim_chars,
};

verus! {

pub const REGISTRY_SCHEMA_VERSION: i64 = 1;

pub const CONTENT_SCHEMA_VERSION: i64 = 2;

pub const FILMSTRIP_SCHEMA_VERSION: i64 = 1;

pub const WAVE_SCHEMA_VERSION: i64 = 1;

pub const MODULE_CONTENT: &'static str = "content";

pub const MODULE_FILMSTRIP: &'static str = "filmstrip";

pub const MODULE_WAVE: &'static str = "wave";

pub const REGISTRY_APPLICATION_ID: i64 = 0x514E_4352;

pub const CONTENT_APPLICATION_ID: i64 = 0x514E_4343;

pub const FILMSTRIP_APPLICATION_ID: i64 = 0x514E_4346;

pub const WAVE_APPLICATION_ID: i64 = 0x514E_4357;

#[derive(Debug, Clone, PartialEq, Eq)]
pub struct SourceIdentityRecord {
    pub source_identity: String,
    pub source_kind: String,
    pub display_name: String,
    pub transport_uri: String,
    pub identity_evidence_json: String,
    pub fallback_fingerprint: Option<String>,
    pub seen_at: String,
}

#[derive(Debug, Clone, PartialEq, Eq)]
pub struct SourceModuleDatabaseRecord {
    pub source_identity: String,
    pub module_name: String,
    pub database_uri: String,
    pub module_schema_version: i64,
    pub evidence_json: String,
    pub seen_at: String,
}

#[derive(Debug, Clone, PartialEq, Eq)]
pub struct ClipDiscoveryRecord {
    pub source_identity: String,
    pub clip_fingerprint: String,
    pub relative_path: String,
    pub original_name: String,
    pub extension: Option<String>,
    pub poster_relative_path: Option<String>,
    pub poster_source: Option<String>,
    pub file_size_bytes: Option<i64>,
    pub clip_created_at: Option<String>,
    pub clip_created_at_source: String,
    pub clip_created_at_offset: Option<String>,
    pub timestamp_evidence_json: String,
    pub seen_at: String,
}

/// A probe snapshot row. The duration, the one float of the schema, is kept
/// as the bits of its `f64` and never computed on here.
#[derive(Debug, Clone, PartialEq, Eq)]
pub struct MediaProbeSnapshotRecord {
    pub probe_id: String,
    pub clip_id: String,
    pub probe_version: String,
    pub probed_at: String,
    pub status: String,
    pub duration_bits: Option<u64>,
    pub video_codec: Option<String>,
    pub audio_codec: Option<String>,
    pub width: Option<i64>,
    pub height: Option<i64>,
    pub fps_num: Option<i64>,
    pub fps_den: Option<i64>,
    pub raw_probe_json: String,
    pub error: Option<String>,
}

#[derive(Debug, Clone, PartialEq, Eq)]
pub struct ClipCreationTimestampUpdate {
    pub clip_id: String,
    pub clip_created_at: String,
    pub clip_created_at_source: String,
    pub clip_created_at_offset: Option<String>,
    pub timestamp_evidence_json: String,
}

#[derive(Debug, Clone, Copy, PartialEq, Eq, Structural)]
pub enum UpsertKind {
    Inserted,
    Updated,
}

#[derive(Debug, Clone, PartialEq, Eq)]
pub struct ClipUpsertResult {
    pub clip_id: String,
    pub kind: UpsertKind,
}

/// The character that a stable row identifier keeps for `c`: ASCII letters
/// and digits (lowercased) and `-`, `_`, `.`, `:` survive, anything else
/// becomes `_`.
pub open spec fn row_id_char(c: char) -> char {
    if is_ascii_alnum(c) || c == '-' || c == '_' || c == '.' || c == ':' {
        lower_char(c)
    } else {
        '_'
    }
}

/// One part of a stable row identifier.
pub open spec fn row_id_part(s: Seq<char>) -> Seq<char> {
    trim_char(trim(s).map_values(|c: char| row_id_char(c)), '_')
}

pub open spec fn clip_id_spec(source_identity: Seq<char>, clip_fingerprint: Seq<char>) -> Seq<
    char,
> {
    "clip:"@ + row_id_part(source_identity) + ":"@ + row_id_part(clip_fingerprint)
}

pub open spec fn location_id_spec(source_identity: Seq<char>, transport_uri: Seq<char>) -> Seq<
    char,
> {
    "location:"@ + row_id_part(source_identity) + ":"@ + row_id_part(transport_uri)
}

fn row_id_part_exec(value: &str) -> (r: Vec<char>)
    ensures
        r@ == row_id_part(value@),
{
    let v = chars_of(value);
    let t = trim_chars(&v);
    let mut m: Vec<char> = Vec::new();
    let mut i: usize = 0;
    while i < t.len()
        invariant
            i <= t@.len(),
            m@ == t@.take(i as int).map_values(|c: char| row_id_char(c)),
        decreases t@.len() - i,
    {
        let c = t[i];
        if is_alnum_char(c) || c == '-' || c == '_' || c == '.' || c == ':' {
            m.push(lower_char_exec(c));
        } else {
            m.push('_');
        }
        i = i + 1;
        assert(m@ =~= t@.take(i as int).map_values(|c: char| row_id_char(c)));
    }
    assert(t@.take(t@.len() as int) =~= t@);
    trim_both_char(&m, '_')
}

/// `clip:<source>:<fingerprint>`, the clip row key of a content database.
pub fn stable_clip_id(source_identity: &str, clip_fingerprint: &str) -> (r: String)
    ensures
        r@ == clip_id_spec(source_identity@, clip_fingerprint@),
{
    let mut out: Vec<char> = Vec::new();
    append_str(&mut out, "clip:");
    let a = row_id_part_exec(source_identity);
    append(&mut out, &a);
    append_str(&mut out, ":");
    let b = row_id_part_exec(clip_fingerprint);
    append(&mut out, &b);
    string_of(&out)
}

/// `location:<source>:<transport uri>`, the source location row key of the registry.
pub fn stable_location_id(source_identity: &str, transport_uri: &str) -> (r: String)
    ensures
        r@ == location_id_spec(source_identity@, transport_uri@),
{
    let mut out: Vec<char> = Vec::new();
    append_str(&mut out, "location:");
    let a = row_id_part_exec(source_identity);
    append(&mut out, &a);
    append_str(&mut out, ":");
    let b = row_id_part_exec(transport_uri);
    append(&mut out, &b);
    string_of(&out)
}

/// What opening a database at a schema version has to do.
#[derive(Debug, Clone, Copy, PartialEq, Eq, Structural)]
pub enum SchemaStep {
    /// The schema is current.
    Ready,
    /// The database is new: create the schema.
    Create,
    /// The content database has version 1: add what version 2 adds.
    UpgradeToV2,
}

pub open spec fn newer_schema_message(role: Seq<char>, version: int, supported: int) -> Seq<char> {
    "IngestQNC "@ + role + " DB version "@ + dec_int(version) + " is newer than supported version "@
        + dec_int(supported)
}

/// The step for a registry, filmstrip or wave database (one schema
/// version): create it when new, refuse a newer version.
pub fn schema_step(role: &str, version: i64, supported_version: i64) -> (r: Result<
    SchemaStep,
    String,
>)
    ensures
        version > supported_version ==> (r matches Err(m) && m@ == newer_schema_message(
            role@,
            version as int,
            supported_version as int,
        )),
        version <= supported_version && version < 1 ==> r == Ok::<SchemaStep, String>(
            SchemaStep::Create,
        ),
        version <= supported_version && version >= 1 ==> r == Ok::<SchemaStep, String>(
            SchemaStep::Ready,
        ),
{
    if version > supported_version {
        let mut m = chars_of("IngestQNC ");
        append_str(&mut m, role);
        append_str(&mut m, " DB version ");
        push_dec_int(&mut m, version);
        append_str(&mut m, " is newer than supported version ");
        push_dec_int(&mut m, supported_version);
        return Err(string_of(&m));
    }
    if version < 1 {
        Ok(SchemaStep::Create)
    } else {
        Ok(SchemaStep::Ready)
    }
}

/// The step for a content database: create it when new, add version 2 to
/// a version 1 database, refuse a newer version.
pub fn content_schema_step(version: i64) -> (r: Result<SchemaStep, String>)
    ensures
        version > CONTENT_SCHEMA_VERSION ==> (r matches Err(m) && m@ == newer_schema_message(
            "content"@,
            version as int,
            CONTENT_SCHEMA_VERSION as int,
        )),
        version < 1 ==> r == Ok::<SchemaStep, String>(SchemaStep::Create),
        version == 1 ==> r == Ok::<SchemaStep, String>(SchemaStep::UpgradeToV2),
        version == CONTENT_SCHEMA_VERSION ==> r == Ok::<SchemaStep, String>(SchemaStep::Ready),
{
    if version > CONTENT_SCHEMA_VERSION {
        return schema_step("content", version, CONTENT_SCHEMA_VERSION);
    }
    if version < 1 {
        Ok(SchemaStep::Create)
    } else if version < 2 {
        Ok(SchemaStep::UpgradeToV2)
    } else {
        Ok(SchemaStep::Ready)
    }
}

/// The outcome of writing a discovered clip: the row found for its source
/// and fingerprint is updated under its id; otherwise a row is inserted
/// under the stable clip id.
pub fn clip_upsert_result(existing_clip_id: Option<String>, record: &ClipDiscoveryRecord) -> (r:
    ClipUpsertResult)
    ensures
        match existing_clip_id {
            Some(id) => r.clip_id == id && r.kind == UpsertKind::Updated,
            None => r.clip_id@ == clip_id_spec(record.source_identity@, record.clip_fingerprint@)
                && r.kind == UpsertKind::Inserted,
        },
{
    match existing_clip_id {
        Some(id) => ClipUpsertResult { clip_id: id, kind: UpsertKind::Updated },
        None => ClipUpsertResult {
            clip_id: stable_clip_id(
                record.source_identity.as_str(),
                record.clip_fingerprint.as_str(),
            ),
            kind: UpsertKind::Inserted,
        },
    }
}

/// The creation-time columns of a clip row.
#[derive(Debug, Clone, PartialEq, Eq)]
pub struct ClipTimestampColumns {
    pub clip_created_at: Option<String>,
    pub clip_created_at_source: String,
    pub clip_created_at_offset: Option<String>,
    pub timestamp_evidence_json: String,
}

pub open spec fn timestamp_columns_view(c: ClipTimestampColumns) -> (
    Option<Seq<char>>,
    Seq<char>,
    Option<Seq<char>>,
    Seq<char>,
) {
    (
        opt_view(&c.clip_created_at),
        c.clip_created_at_source@,
        opt_view(&c.clip_created_at_offset),
        c.timestamp_evidence_json@,
    )
}

/// A timestamp source that filesystem evidence never replaces: one read
/// from the media itself (camera or container) or set by hand.
pub open spec fn is_embedded_or_manual(source: Seq<char>) -> bool {
    source == "embedded_camera"@ || source == "embedded_container"@ || source == "manual"@
}

/// The creation-time columns that a clip row keeps when a scan finds it
/// again with `record`. Evidence read from the media or set by hand stays
/// unless the scan brings such evidence itself; otherwise a scanned
/// timestamp replaces the stored one, a scan without one keeps the stored
/// time and source, and the scan's evidence JSON is kept.
pub fn rescanned_timestamp(stored: &ClipTimestampColumns, record: &ClipDiscoveryRecord) -> (r:
    ClipTimestampColumns)
    ensures
        is_embedded_or_manual(stored.clip_created_at_source@) && !is_embedded_or_manual(
            record.clip_created_at_source@,
        ) ==> timestamp_columns_view(r) == timestamp_columns_view(*stored),
        !(is_embedded_or_manual(stored.clip_created_at_source@) && !is_embedded_or_manual(
            record.clip_created_at_source@,
        )) ==> timestamp_columns_view(r) == (
            if record.clip_created_at is Some {
                opt_view(&record.clip_created_at)
            } else {
                opt_view(&stored.clip_created_at)
            },
            if record.clip_created_at is Some {
                record.clip_created_at_source@
            } else {
                stored.clip_created_at_source@
            },
            if record.clip_created_at_offset is Some {
                opt_view(&record.clip_created_at_offset)
            } else {
                opt_view(&stored.clip_created_at_offset)
            },
            record.timestamp_evidence_json@,
        ),
{
    let stored_strong = is_embedded_or_manual_text(stored.clip_created_at_source.as_str());
    let scanned_strong = is_embedded_or_manual_text(record.clip_created_at_source.as_str());
    if stored_strong && !scanned_strong {
        return ClipTimestampColumns {
            clip_created_at: stored.clip_created_at.clone(),
            clip_created_at_source: stored.clip_created_at_source.clone(),
            clip_created_at_offset: stored.clip_created_at_offset.clone(),
            timestamp_evidence_json: stored.timestamp_evidence_json.clone(),
        };
    }
    let (clip_created_at, clip_created_at_source) = match &record.clip_created_at {
        Some(_) => (record.clip_created_at.clone(), record.clip_created_at_source.clone()),
        None => (stored.clip_created_at.clone(), stored.clip_created_at_source.clone()),
    };
    let clip_created_at_offset = match &record.clip_created_at_offset {
        Some(_) => record.clip_created_at_offset.clone(),
        None => stored.clip_created_at_offset.clone(),
    };
    ClipTimestampColumns {
        clip_created_at,
        clip_created_at_source,
        clip_created_at_offset,
        timestamp_evidence_json: record.timestamp_evidence_json.clone(),
    }
}

fn is_embedded_or_manual_text(source: &str) -> (r: bool)
    ensures
        r == is_embedded_or_manual(source@),
{
    str_eq(source, "embedded_camera") || str_eq(source, "embedded_container") || str_eq(
        source,
        "manual",
    )
}

} // verus!
