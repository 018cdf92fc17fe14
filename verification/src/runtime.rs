//! The runtime rules around identification, scanning and probing: where the
//! databases of a source live (as QNC transport URIs and as local paths),
//! how an operator location becomes an access root, what the browser lists
//! for each kind of source, and how identified sources and clip states are
//! labelled. Opening databases, reading directories and the environment are
//! left to the caller.
use vstd::prelude::*;
use crate::db::{SourceModuleDatabaseRecord, CONTENT_SCHEMA_VERSION, REGISTRY_SCHEMA_VERSION};
use crate::evidence::json_or_null;
use crate::json::{json_str_at, json_string_at};
use crate::fmt::{
    json_member_of, json_object, json_object_of, json_str_text, json_string, lemma_json_object,
    members_text, opt_view, strings_view,
};
use crate::model::{contains_id, ClipCard, FsEntry, SourceKind};
use crate::source_identity::{
    confidence_text, is_qnc_transport, opt_views, is_qnc_transport_uri, normalize_id, normalize_id_part,
    DetectedSourceIdentity, SourceIdentityError,
};
use crate::text::{
    append, append_str, chars_of, copy_chars, eq_pred, lower, lower_chars, nonempty,
    nonempty_parts, replace_char, replace_char_chars, split, split_char, split_once,
    split_once_char, starts_with, starts_with_str, str_eq, string_of, strip_prefix_str, texts,
    trim, trim_both_char, trim_char, trim_chars, trim_end_by, trim_end_char, trim_str, is_ws,
    lead_by, trail_by, trim_start_by, ws_pred,
};

verus! {

pub const DEFAULT_DB_URI_BASE: &'static str = "qnc+local://localhost/ingest-db";

/// A segment of a database URI or path: the identity-part rules.
pub fn uri_segment(value: &str) -> (r: String)
    ensures
        r@ == normalize_id(value@),
{
    normalize_id_part(value)
}

/// Whether a configured database URI base is a QNC transport URI.
pub fn is_qnc_database_uri_base(value: &str) -> (r: bool)
    ensures
        r == is_qnc_transport(value@),
{
    is_qnc_transport_uri(&chars_of(value))
}

/// Where the registry and the per-source module databases live: a local
/// root directory, and the transport URI base recorded for them.
#[derive(Debug, Clone, PartialEq, Eq)]
pub struct DatabaseLocator {
    pub root: String,
    pub uri_base: String,
}

pub open spec fn base_text(uri_base: Seq<char>) -> Seq<char> {
    trim_end_by(uri_base, eq_pred('/'))
}

pub open spec fn registry_uri(uri_base: Seq<char>) -> Seq<char> {
    base_text(uri_base) + "/registry.sqlite"@
}

pub open spec fn module_uri(uri_base: Seq<char>, source_identity: Seq<char>, module: Seq<char>) -> Seq<
    char,
> {
    base_text(uri_base) + "/sources/"@ + normalize_id(source_identity) + seq!['/'] + normalize_id(
        module,
    ) + ".sqlite"@
}

impl DatabaseLocator {
    pub fn new(root: &str, uri_base: &str) -> (r: Self)
        ensures
            r.root@ == root@,
            r.uri_base@ == uri_base@,
    {
        DatabaseLocator { root: root.to_owned(), uri_base: uri_base.to_owned() }
    }

    /// The locator for the configured home directory and URI base: the
    /// home, else `default_root`; the URI base when it is a QNC transport
    /// URI, else the local default.
    pub fn from_settings(home: Option<String>, uri_base: Option<String>, default_root: &str) -> (r:
        Self)
        ensures
            r.root@ == (match opt_view(&home) {
                Some(h) => h,
                None => default_root@,
            }),
            r.uri_base@ == (match opt_view(&uri_base) {
                Some(u) => if is_qnc_transport(u) {
                    u
                } else {
                    DEFAULT_DB_URI_BASE@
                },
                None => DEFAULT_DB_URI_BASE@,
            }),
    {
        let root = match home {
            Some(h) => h,
            None => default_root.to_owned(),
        };
        let base = match uri_base {
            Some(u) => if is_qnc_database_uri_base(u.as_str()) {
                u
            } else {
                DEFAULT_DB_URI_BASE.to_owned()
            },
            None => DEFAULT_DB_URI_BASE.to_owned(),
        };
        DatabaseLocator { root, uri_base: base }
    }

    /// The components of the registry's local path, starting at the root.
    pub fn registry_path(&self) -> (r: Vec<String>)
        ensures
            strings_view(r@) == seq![self.root@, "registry.sqlite"@],
    {
        let mut r: Vec<String> = Vec::new();
        r.push(self.root.clone());
        r.push("registry.sqlite".to_owned());
        assert(strings_view(r@) =~= seq![self.root@, "registry.sqlite"@]);
        r
    }

    pub fn registry_database_uri(&self) -> (r: String)
        ensures
            r@ == registry_uri(self.uri_base@),
    {
        let mut out = trim_end_char(&chars_of(self.uri_base.as_str()), '/');
        append_str(&mut out, "/registry.sqlite");
        string_of(&out)
    }

    /// The components of a module database's local path.
    pub fn module_database_path(&self, source_identity: &str, module_name: &str) -> (r: Vec<
        String,
    >)
        ensures
            strings_view(r@) == seq![
                self.root@,
                "sources"@,
                normalize_id(source_identity@),
                normalize_id(module_name@) + ".sqlite"@,
            ],
    {
        let mut r: Vec<String> = Vec::new();
        r.push(self.root.clone());
        r.push("sources".to_owned());
        r.push(uri_segment(source_identity));
        let mut file = chars_of(uri_segment(module_name).as_str());
        append_str(&mut file, ".sqlite");
        r.push(string_of(&file));
        assert(strings_view(r@) =~= seq![
            self.root@,
            "sources"@,
            normalize_id(source_identity@),
            normalize_id(module_name@) + ".sqlite"@,
        ]);
        r
    }

    pub fn module_database_uri(&self, source_identity: &str, module_name: &str) -> (r: String)
        ensures
            r@ == module_uri(self.uri_base@, source_identity@, module_name@),
    {
        let mut out = trim_end_char(&chars_of(self.uri_base.as_str()), '/');
        append_str(&mut out, "/sources/");
        append_str(&mut out, uri_segment(source_identity).as_str());
        out.push('/');
        append_str(&mut out, uri_segment(module_name).as_str());
        append_str(&mut out, ".sqlite");
        string_of(&out)
    }
}

/// The failures that the runtime rules decide.
#[derive(Debug, Clone, PartialEq, Eq)]
pub enum RuntimeError {
    EmptySourceLocation,
    SourceNotIdentified,
    UnresolvableTransport(String),
    SourceIdentity(SourceIdentityError),
}

/// The identified source as the shell keeps it.
#[derive(Debug, Clone, PartialEq, Eq)]
pub struct IdentifiedSourceRuntime {
    pub operator_location: String,
    pub source_identity: String,
    pub source_kind: String,
    pub display_name: String,
    pub transport_uri: String,
    pub identity_basis: String,
    pub identity_label: String,
    pub identity_value: String,
    pub confidence: String,
    pub seen_at: String,
    pub registry_database_uri: String,
    pub registry_schema_version: i64,
    pub content_database_uri: String,
    pub content_schema_version: i64,
}

#[derive(Debug, Clone, PartialEq, Eq)]
pub struct ScanRuntimeReport {
    pub source_identity: String,
    pub files_seen: usize,
    pub media_files_seen: usize,
    pub clips_inserted: usize,
    pub clips_updated: usize,
    pub skipped_non_media: usize,
}

#[derive(Debug, Clone)]
pub struct ScannedSourceRuntime {
    pub report: ScanRuntimeReport,
    pub clips: Vec<ClipCard>,
}

#[derive(Debug, Clone, PartialEq, Eq)]
pub struct ProbeRuntimeReport {
    pub source_identity: String,
    pub requested_clips: usize,
    pub candidate_clips: usize,
    pub probes_ok: usize,
    pub probes_error: usize,
    pub probes_skipped: usize,
}

#[derive(Debug, Clone)]
pub struct ProbedSourceRuntime {
    pub report: ProbeRuntimeReport,
    pub clips: Vec<ClipCard>,
}

/// What the browser lists at a location.
#[derive(Debug, Clone, PartialEq, Eq)]
pub struct SourceEntrySnapshot {
    pub roots: bool,
    pub path: String,
    pub parent: Option<String>,
    pub entries: Vec<FsEntry>,
    pub selected_root_label: Option<String>,
}

/// How a listing is answered: LAN and intranet locations are kept as the
/// operator typed them; a local location is read from the file system, its
/// roots when the path is blank.
#[derive(Debug, Clone, PartialEq, Eq)]
pub enum SourceListing {
    Snapshot(SourceEntrySnapshot),
    LocalRoots,
    LocalDirectory(String),
}

/// The runtime of the ingest view, bound to its database locator.
#[derive(Debug, Clone)]
pub struct RuntimeController {
    pub locator: DatabaseLocator,
}

pub open spec fn identity_label_text(basis: Seq<char>) -> Seq<char> {
    if basis == "marker_source_identity"@ {
        "Marker"@
    } else if basis == "media_serial"@ {
        "Serial"@
    } else if basis == "volume_uuid"@ {
        "Volume"@
    } else if basis == "root_signature"@ {
        "Fingerprint"@
    } else if basis == "transport_endpoint"@ {
        "Endpoint"@
    } else if basis == "local_transport_card"@ {
        "Card"@
    } else if basis == "local_transport_volume"@ {
        "Volume"@
    } else if basis == "local_transport_source"@ {
        "Source"@
    } else if basis == "local_transport_fallback"@ {
        "Fallback"@
    } else {
        "Identity"@
    }
}

/// The short label of an identity basis.
pub fn identity_label(identity_basis: &str) -> (r: &'static str)
    ensures
        r@ == identity_label_text(identity_basis@),
{
    if str_eq(identity_basis, "marker_source_identity") {
        "Marker"
    } else if str_eq(identity_basis, "media_serial") {
        "Serial"
    } else if str_eq(identity_basis, "volume_uuid") {
        "Volume"
    } else if str_eq(identity_basis, "root_signature") {
        "Fingerprint"
    } else if str_eq(identity_basis, "transport_endpoint") {
        "Endpoint"
    } else if str_eq(identity_basis, "local_transport_card") {
        "Card"
    } else if str_eq(identity_basis, "local_transport_volume") {
        "Volume"
    } else if str_eq(identity_basis, "local_transport_source") {
        "Source"
    } else if str_eq(identity_basis, "local_transport_fallback") {
        "Fallback"
    } else {
        "Identity"
    }
}

/// The JSON pointers of the identity evidence that hold the value shown for
/// an identity basis, tried in order.
pub open spec fn value_pointers(basis: Seq<char>) -> Seq<Seq<char>> {
    if basis == "media_serial"@ {
        seq!["/local/media_serial"@]
    } else if basis == "volume_uuid"@ {
        seq!["/local/volume_uuid"@]
    } else if basis == "transport_endpoint"@ {
        seq!["/network/share_or_gateway_path"@, "/network/host"@]
    } else if basis == "root_signature"@ {
        seq!["/local/canonical_path"@]
    } else {
        seq![]
    }
}

/// The first value found, else the fallback.
pub open spec fn first_found(found: Seq<Option<Seq<char>>>, fallback: Seq<char>) -> Seq<char>
    decreases found.len(),
{
    if found.len() == 0 {
        fallback
    } else {
        match found[0] {
            Some(v) => v,
            None => first_found(found.drop_first(), fallback),
        }
    }
}

/// The value shown next to an identity label, read from the evidence: the
/// string at the first of the basis's pointers that holds one, else the
/// fallback.
pub open spec fn identity_value_text(evidence: Seq<char>, basis: Seq<char>, fallback: Seq<char>) -> Seq<
    char,
> {
    first_found(value_pointers(basis).map_values(|p: Seq<char>| json_str_at(evidence, p)), fallback)
}

/// The pointers of `value_pointers`.
pub fn identity_value_pointers(identity_basis: &str) -> (r: Vec<&'static str>)
    ensures
        r@.map_values(|p: &str| p@) == value_pointers(identity_basis@),
{
    let mut r: Vec<&'static str> = Vec::new();
    if str_eq(identity_basis, "media_serial") {
        r.push("/local/media_serial");
    } else if str_eq(identity_basis, "volume_uuid") {
        r.push("/local/volume_uuid");
    } else if str_eq(identity_basis, "transport_endpoint") {
        r.push("/network/share_or_gateway_path");
        r.push("/network/host");
    } else if str_eq(identity_basis, "root_signature") {
        r.push("/local/canonical_path");
    }
    assert(r@.map_values(|p: &str| p@) =~= value_pointers(identity_basis@));
    r
}

/// The value shown next to an identity label, given what was found at the
/// basis's pointers, in order: the first value found, else the fallback.
pub fn identity_value_from_found(found: &Vec<Option<String>>, fallback: &str) -> (r: String)
    ensures
        r@ == first_found(opt_views(found@), fallback@),
{
    let mut i: usize = 0;
    assert(opt_views(found@).skip(0) =~= opt_views(found@));
    while i < found.len()
        invariant
            i <= found@.len(),
            first_found(opt_views(found@), fallback@) == first_found(
                opt_views(found@).skip(i as int),
                fallback@,
            ),
        decreases found@.len() - i,
    {
        proof {
            let rest = opt_views(found@).skip(i as int);
            assert(rest[0] == opt_view(&found@[i as int]));
            assert(rest.drop_first() =~= opt_views(found@).skip(i + 1));
        }
        match &found[i] {
            Some(v) => {
                return v.clone();
            },
            None => {},
        }
        i = i + 1;
    }
    assert(opt_views(found@).skip(i as int).len() == 0);
    fallback.to_owned()
}

pub fn identity_value_from_evidence(evidence_json: &str, identity_basis: &str, fallback: &str) -> (r:
    String)
    ensures
        r@ == identity_value_text(evidence_json@, identity_basis@, fallback@),
{
    let pointers = identity_value_pointers(identity_basis);
    let ghost ps = pointers@.map_values(|p: &str| p@);
    let mut found: Vec<Option<String>> = Vec::new();
    let mut i: usize = 0;
    while i < pointers.len()
        invariant
            i <= pointers@.len(),
            ps == pointers@.map_values(|p: &str| p@),
            opt_views(found@) == ps.take(i as int).map_values(
                |p: Seq<char>| json_str_at(evidence_json@, p),
            ),
        decreases pointers@.len() - i,
    {
        let ghost before = found@;
        found.push(json_string_at(evidence_json, pointers[i]));
        proof {
            assert(ps[i as int] == pointers@[i as int]@);
            assert(opt_views(found@) =~= opt_views(before).push(opt_view(&found@[i as int])));
            assert(ps.take(i + 1).map_values(|p: Seq<char>| json_str_at(evidence_json@, p))
                =~= ps.take(i as int).map_values(|p: Seq<char>| json_str_at(evidence_json@, p)).push(
                json_str_at(evidence_json@, ps[i as int]),
            ));
        }
        i = i + 1;
    }
    assert(ps.take(pointers@.len() as int) =~= ps);
    identity_value_from_found(&found, fallback)
}

pub open spec fn clip_status_text(probe_id: Option<Seq<char>>, probe_status: Option<Seq<char>>) -> Seq<
    char,
> {
    match probe_status {
        Some(s) => if lower(trim(s)) == "error"@ {
            "error"@
        } else if lower(trim(s)) == "ok"@ {
            "done"@
        } else if probe_id is Some {
            "done"@
        } else {
            "scanned"@
        },
        None => if probe_id is Some {
            "done"@
        } else {
            "scanned"@
        },
    }
}

/// The ingest status of a clip from its latest probe.
pub fn clip_status(probe_id: &Option<String>, probe_status: &Option<String>) -> (r: String)
    ensures
        r@ == clip_status_text(opt_view(probe_id), opt_view(probe_status)),
{
    match probe_status {
        Some(s) => {
            let l = lower_chars(&trim_str(s.as_str()));
            if crate::text::chars_eq(&l, &chars_of("error")) {
                return "error".to_owned();
            }
            if crate::text::chars_eq(&l, &chars_of("ok")) {
                return "done".to_owned();
            }
        },
        None => {},
    }
    if probe_id.is_some() {
        "done".to_owned()
    } else {
        "scanned".to_owned()
    }
}

/// The ids a probe request names: trimmed, blank ones left out.
pub open spec fn requested_ids(ids: Seq<Seq<char>>) -> Seq<Seq<char>> {
    nonempty(ids.map_values(|s: Seq<char>| trim(s)))
}

/// Marks exactly the clips whose id is requested as selected; an empty
/// request leaves the selection as it is.
pub fn mark_selected_clips(clips: &mut Vec<ClipCard>, selected_clip_ids: &Vec<String>)
    ensures
        selected_clip_ids@.len() == 0 ==> final(clips)@ == old(clips)@,
        selected_clip_ids@.len() > 0 ==> final(clips)@ == crate::model::with_selection(
            old(clips)@,
            requested_ids(strings_view(selected_clip_ids@)),
        ),
{
    if selected_clip_ids.len() == 0 {
        return;
    }
    let mut ids: Vec<String> = Vec::new();
    let mut i: usize = 0;
    let ghost all = strings_view(selected_clip_ids@).map_values(|s: Seq<char>| trim(s));
    while i < selected_clip_ids.len()
        invariant
            i <= selected_clip_ids@.len(),
            all == strings_view(selected_clip_ids@).map_values(|s: Seq<char>| trim(s)),
            strings_view(ids@) == nonempty(all.take(i as int)),
        decreases selected_clip_ids@.len() - i,
    {
        let t = trim_str(selected_clip_ids[i].as_str());
        let ghost before = strings_view(ids@);
        proof {
            assert(all.take(i + 1).drop_last() =~= all.take(i as int));
            assert(all.take(i + 1).last() == t@);
            reveal(Seq::filter);
        }
        if t.len() > 0 {
            ids.push(string_of(&t));
            assert(strings_view(ids@) =~= before.push(t@));
        }
        i = i + 1;
        assert(strings_view(ids@) =~= nonempty(all.take(i as int)));
    }
    assert(all.take(selected_clip_ids@.len() as int) =~= all);
    let ghost wanted = requested_ids(strings_view(selected_clip_ids@));
    let ghost start = clips@;
    let mut out: Vec<ClipCard> = Vec::new();
    let mut k: usize = 0;
    while k < clips.len()
        invariant
            clips@ == start,
            k <= start.len(),
            strings_view(ids@) == wanted,
            out@ == crate::model::with_selection(start.take(k as int), wanted),
        decreases start.len() - k,
    {
        let keep = contains_id(&ids, clips[k].id.as_str());
        let c = clips[k].with_selected(keep);
        out.push(c);
        k = k + 1;
        assert(out@ =~= crate::model::with_selection(start.take(k as int), wanted));
    }
    assert(start.take(start.len() as int) =~= start);
    *clips = out;
}

// ---------------------------------------------------------------------------
// Access roots
// ---------------------------------------------------------------------------

/// Host and path of a transport endpoint `host/path`, both trimmed, the path
/// without surrounding `/`; `None` when the host is blank.
pub open spec fn transport_endpoint(rest: Seq<char>) -> Option<(Seq<char>, Seq<char>)> {
    let t = trim(rest);
    match split_once(t, '/') {
        None => if t.len() == 0 {
            None
        } else {
            Some((t, Seq::<char>::empty()))
        },
        Some(hp) => if trim(hp.0).len() == 0 {
            None
        } else {
            Some((trim(hp.0), trim_char(hp.1, '/')))
        },
    }
}

pub open spec fn host_missing_error() -> Seq<char> {
    "QNC transport host nije zadan"@
}

pub open spec fn endpoint_error_view(r: Result<(String, String), RuntimeError>) -> bool {
    r matches Err(RuntimeError::UnresolvableTransport(m)) && m@ == host_missing_error()
}

pub fn split_transport_endpoint(rest: &str) -> (r: Result<(String, String), RuntimeError>)
    ensures
        r matches Ok(hp) ==> transport_endpoint(rest@) == Some((hp.0@, hp.1@)),
        r is Err ==> transport_endpoint(rest@) is None && endpoint_error_view(r),
{
    let t = trim_str(rest);
    match split_once_char(&t, '/') {
        None => {
            if t.len() == 0 {
                Err(RuntimeError::UnresolvableTransport("QNC transport host nije zadan".to_owned()))
            } else {
                Ok((string_of(&t), String::new()))
            }
        },
        Some((host, path)) => {
            let h = trim_chars(&host);
            if h.len() == 0 {
                Err(RuntimeError::UnresolvableTransport("QNC transport host nije zadan".to_owned()))
            } else {
                let p = trim_both_char(&path, '/');
                Ok((string_of(&h), string_of(&p)))
            }
        },
    }
}

/// Local mount roots under which LAN hosts and intranet gateways are
/// reachable, when they are configured.
#[derive(Debug, Clone, PartialEq, Eq)]
pub struct TransportMounts {
    pub lan_mount_root: Option<String>,
    pub intranet_mount_root: Option<String>,
}

/// Where the files of a source are read from: a local path, or a mount
/// root with the segments below it.
#[derive(Debug, Clone, PartialEq, Eq)]
pub enum AccessRoot {
    Path(String),
    Mapped { mount_root: String, segments: Vec<String> },
}

pub enum AccessView {
    Path(Seq<char>),
    Mapped(Seq<char>, Seq<Seq<char>>),
}

pub open spec fn access_view(a: AccessRoot) -> AccessView {
    match a {
        AccessRoot::Path(p) => AccessView::Path(p@),
        AccessRoot::Mapped { mount_root, segments } => AccessView::Mapped(
            mount_root@,
            strings_view(segments@),
        ),
    }
}

pub enum AccessOutcome {
    Root(AccessView),
    Unresolvable(Seq<char>),
    Empty,
}

pub open spec fn access_outcome(r: Result<AccessRoot, RuntimeError>) -> AccessOutcome {
    match r {
        Ok(a) => AccessOutcome::Root(access_view(a)),
        Err(RuntimeError::UnresolvableTransport(m)) => AccessOutcome::Unresolvable(m@),
        Err(RuntimeError::EmptySourceLocation) => AccessOutcome::Empty,
        Err(_) => AccessOutcome::Unresolvable(Seq::empty()),
    }
}

/// The mount root joined with the host segment and the path segments.
pub open spec fn mapped_root(mount: Seq<char>, rest: Seq<char>) -> AccessOutcome {
    match transport_endpoint(rest) {
        None => AccessOutcome::Unresolvable(host_missing_error()),
        Some(hp) => AccessOutcome::Root(
            AccessView::Mapped(mount, seq![normalize_id(hp.0)] + nonempty(split(hp.1, '/'))),
        ),
    }
}

/// The UNC path of a LAN endpoint on Windows.
pub open spec fn unc_root(rest: Seq<char>) -> AccessOutcome {
    match transport_endpoint(rest) {
        None => AccessOutcome::Unresolvable(host_missing_error()),
        Some(hp) => AccessOutcome::Root(
            AccessView::Path(
                seq!['\\', '\\'] + hp.0 + if hp.1.len() == 0 {
                    Seq::<char>::empty()
                } else {
                    seq!['\\'] + replace_char(hp.1, '/', '\\')
                },
            ),
        ),
    }
}

/// Where the files behind an operator location are read: a local path as
/// given; LAN and intranet URIs through their configured mount roots (LAN
/// endpoints as UNC paths on Windows when no mount root is set); `file:`
/// and `qnc+local://` URIs are refused, as they name no access path.
pub open spec fn access_root_of(location: Seq<char>, lan: Option<Seq<char>>, intranet: Option<Seq<char>>, windows: bool) -> AccessOutcome {
    let loc = trim(location);
    if loc.len() == 0 {
        AccessOutcome::Empty
    } else if starts_with(loc, "file:"@) {
        AccessOutcome::Unresolvable(
            "file: URI nije QNC transport i ne smije biti stabilni ingest ulaz"@,
        )
    } else if starts_with(loc, "qnc+lan://"@) {
        let rest = loc.skip("qnc+lan://"@.len() as int);
        match lan {
            Some(m) => mapped_root(m, rest),
            None => if windows {
                unc_root(rest)
            } else {
                AccessOutcome::Unresolvable(
                    "qnc+lan URI treba lokalni mount root kroz INGESTQNC_LAN_MOUNT_ROOT"@,
                )
            },
        }
    } else if starts_with(loc, "qnc+intranet://"@) || starts_with(loc, "qnc://"@) {
        let rest = if starts_with(loc, "qnc+intranet://"@) {
            loc.skip("qnc+intranet://"@.len() as int)
        } else {
            loc.skip("qnc://"@.len() as int)
        };
        match intranet {
            Some(m) => mapped_root(m, rest),
            None => AccessOutcome::Unresolvable(
                "qnc+intranet URI treba lokalni mount root kroz INGESTQNC_INTRANET_MOUNT_ROOT"@,
            ),
        }
    } else if starts_with(loc, "qnc+local://"@) {
        AccessOutcome::Unresolvable(
            "qnc+local URI je stabilni identitet; za scan treba trenutni lokalni pristupni direktorij"@,
        )
    } else {
        AccessOutcome::Root(AccessView::Path(loc))
    }
}

fn mapped_access_root(mount: &String, rest: &[char]) -> (r: Result<AccessRoot, RuntimeError>)
    ensures
        access_outcome(r) == mapped_root(mount@, rest@),
{
    let rest_s = string_of(rest);
    match split_transport_endpoint(rest_s.as_str()) {
        Err(e) => Err(e),
        Ok((host, path)) => {
            let mut segments: Vec<String> = Vec::new();
            segments.push(uri_segment(host.as_str()));
            let pieces = split_char(&chars_of(path.as_str()), '/');
            let parts = nonempty_parts(&pieces);
            let ghost ps = texts(parts@);
            let mut i: usize = 0;
            while i < parts.len()
                invariant
                    i <= parts@.len(),
                    ps == texts(parts@),
                    strings_view(segments@) == seq![normalize_id(host@)] + ps.take(i as int),
                decreases parts@.len() - i,
            {
                let ghost before = strings_view(segments@);
                segments.push(string_of(&parts[i]));
                i = i + 1;
                assert(strings_view(segments@) =~= before.push(parts@[i - 1]@));
                assert(strings_view(segments@) =~= seq![normalize_id(host@)] + ps.take(i as int));
            }
            assert(ps.take(parts@.len() as int) =~= ps);
            Ok(AccessRoot::Mapped { mount_root: mount.clone(), segments })
        },
    }
}

fn unc_access_root(rest: &[char]) -> (r: Result<AccessRoot, RuntimeError>)
    ensures
        access_outcome(r) == unc_root(rest@),
{
    let rest_s = string_of(rest);
    match split_transport_endpoint(rest_s.as_str()) {
        Err(e) => Err(e),
        Ok((host, path)) => {
            let mut unc: Vec<char> = Vec::new();
            unc.push('\\');
            unc.push('\\');
            append_str(&mut unc, host.as_str());
            let p = chars_of(path.as_str());
            if p.len() > 0 {
                unc.push('\\');
                let q = replace_char_chars(&p, '/', '\\');
                append(&mut unc, &q);
                assert(unc@ =~= seq!['\\', '\\'] + host@ + (seq!['\\'] + replace_char(
                    path@,
                    '/',
                    '\\',
                )));
            } else {
                assert(unc@ =~= seq!['\\', '\\'] + host@ + Seq::<char>::empty());
            }
            Ok(AccessRoot::Path(string_of(&unc)))
        },
    }
}

/// The access root of an operator location.
pub fn operator_access_root(location: &str, mounts: &TransportMounts, windows: bool) -> (r: Result<
    AccessRoot,
    RuntimeError,
>)
    ensures
        access_outcome(r) == access_root_of(
            location@,
            opt_view(&mounts.lan_mount_root),
            opt_view(&mounts.intranet_mount_root),
            windows,
        ),
{
    let loc = trim_str(location);
    if loc.len() == 0 {
        return Err(RuntimeError::EmptySourceLocation);
    }
    if starts_with_str(&loc, "file:") {
        return Err(
            RuntimeError::UnresolvableTransport(
                "file: URI nije QNC transport i ne smije biti stabilni ingest ulaz".to_owned(),
            ),
        );
    }
    if let Some(rest) = strip_prefix_str(&loc, "qnc+lan://") {
        return match &mounts.lan_mount_root {
            Some(m) => mapped_access_root(m, &rest),
            None => if windows {
                unc_access_root(&rest)
            } else {
                Err(
                    RuntimeError::UnresolvableTransport(
                        "qnc+lan URI treba lokalni mount root kroz INGESTQNC_LAN_MOUNT_ROOT".to_owned(),
                    ),
                )
            },
        };
    }
    let intranet_rest = match strip_prefix_str(&loc, "qnc+intranet://") {
        Some(rest) => Some(rest),
        None => strip_prefix_str(&loc, "qnc://"),
    };
    if let Some(rest) = intranet_rest {
        return match &mounts.intranet_mount_root {
            Some(m) => mapped_access_root(m, &rest),
            None => Err(
                RuntimeError::UnresolvableTransport(
                    "qnc+intranet URI treba lokalni mount root kroz INGESTQNC_INTRANET_MOUNT_ROOT".to_owned(),
                ),
            ),
        };
    }
    if starts_with_str(&loc, "qnc+local://") {
        return Err(
            RuntimeError::UnresolvableTransport(
                "qnc+local URI je stabilni identitet; za scan treba trenutni lokalni pristupni direktorij".to_owned(),
            ),
        );
    }
    Ok(AccessRoot::Path(string_of(&loc)))
}

// ---------------------------------------------------------------------------
// The controller
// ---------------------------------------------------------------------------

pub open spec fn module_evidence_members(module_name: Seq<char>, local_path: Seq<char>) -> Seq<
    (Seq<char>, Seq<char>),
> {
    seq![
        ("local_path_evidence"@, json_string(local_path)),
        ("module_name"@, json_string(module_name)),
        (
            "note"@,
            json_string(
                "raw local path is runtime evidence only; persisted database_uri is QNC transport"@,
            ),
        ),
        ("schema_version"@, seq!['1']),
    ]
}

/// The evidence recorded with a module database: its local path, as runtime
/// evidence only.
pub fn module_database_evidence_json(module_name: &str, local_path: &str) -> (r: String)
    ensures
        r@ == json_object(module_evidence_members(module_name@, local_path@)),
{
    let mut m: Vec<Vec<char>> = Vec::new();
    let v = json_str_text(local_path);
    m.push(json_member_of("local_path_evidence", &v));
    let v = json_str_text(module_name);
    m.push(json_member_of("module_name", &v));
    let v = json_str_text(
        "raw local path is runtime evidence only; persisted database_uri is QNC transport",
    );
    m.push(json_member_of("note", &v));
    let one = vec!['1'];
    assert(one@ =~= seq!['1']);
    m.push(json_member_of("schema_version", &one));
    proof {
        let members = module_evidence_members(module_name@, local_path@);
        assert(texts(m@) =~= members_text(members));
        lemma_json_object(members, texts(m@));
    }
    let j = json_object_of(&m);
    string_of(&j)
}

impl RuntimeController {
    pub fn new(locator: DatabaseLocator) -> (r: Self)
        ensures
            r.locator == locator,
    {
        RuntimeController { locator }
    }

    /// The location to identify: the trimmed operator location, which must
    /// not be blank.
    pub fn checked_location(location: &str) -> (r: Result<String, RuntimeError>)
        ensures
            r matches Ok(l) ==> l@ == trim(location@) && l@.len() > 0,
            r is Err <==> trim(location@).len() == 0,
            r matches Err(e) ==> e == RuntimeError::EmptySourceLocation,
    {
        let t = trim_str(location);
        if t.len() == 0 {
            Err(RuntimeError::EmptySourceLocation)
        } else {
            Ok(string_of(&t))
        }
    }

    /// The source identity a scan, probe or load works on: trimmed, and not
    /// blank.
    pub fn checked_source_identity(source_identity: &str) -> (r: Result<String, RuntimeError>)
        ensures
            r matches Ok(s) ==> s@ == trim(source_identity@) && s@.len() > 0,
            r is Err <==> trim(source_identity@).len() == 0,
            r matches Err(e) ==> e == RuntimeError::SourceNotIdentified,
    {
        let t = trim_str(source_identity);
        if t.len() == 0 {
            Err(RuntimeError::SourceNotIdentified)
        } else {
            Ok(string_of(&t))
        }
    }

    /// The registry row of the content database of a detected source.
    pub fn content_module_record(
        &self,
        source_identity: &str,
        content_local_path: &str,
        seen_at: &str,
    ) -> (r: SourceModuleDatabaseRecord)
        ensures
            r.source_identity@ == source_identity@,
            r.module_name@ == crate::db::MODULE_CONTENT@,
            r.database_uri@ == module_uri(
                self.locator.uri_base@,
                source_identity@,
                crate::db::MODULE_CONTENT@,
            ),
            r.module_schema_version == CONTENT_SCHEMA_VERSION,
            r.evidence_json@ == json_object(
                module_evidence_members(crate::db::MODULE_CONTENT@, content_local_path@),
            ),
            r.seen_at@ == seen_at@,
    {
        SourceModuleDatabaseRecord {
            source_identity: source_identity.to_owned(),
            module_name: crate::db::MODULE_CONTENT.to_owned(),
            database_uri: self.locator.module_database_uri(
                source_identity,
                crate::db::MODULE_CONTENT,
            ),
            module_schema_version: CONTENT_SCHEMA_VERSION,
            evidence_json: module_database_evidence_json(
                crate::db::MODULE_CONTENT,
                content_local_path,
            ),
            seen_at: seen_at.to_owned(),
        }
    }

    /// What the shell keeps of a detected source.
    pub fn identified_source(
        &self,
        operator_location: &str,
        detected: &DetectedSourceIdentity,
        seen_at: &str,
    ) -> (r: IdentifiedSourceRuntime)
        ensures
            r.operator_location@ == operator_location@,
            r.source_identity@ == detected@.source_identity,
            r.source_kind@ == detected@.source_kind,
            r.display_name@ == detected@.display_name,
            r.transport_uri@ == detected@.transport_uri,
            r.identity_basis@ == detected@.identity_basis,
            r.identity_label@ == identity_label_text(detected@.identity_basis),
            r.identity_value@ == identity_value_text(
                detected@.identity_evidence_json,
                detected@.identity_basis,
                detected@.source_identity,
            ),
            r.confidence@ == confidence_text(detected@.confidence),
            r.seen_at@ == seen_at@,
            r.registry_database_uri@ == registry_uri(self.locator.uri_base@),
            r.registry_schema_version == REGISTRY_SCHEMA_VERSION,
            r.content_database_uri@ == module_uri(
                self.locator.uri_base@,
                detected@.source_identity,
                crate::db::MODULE_CONTENT@,
            ),
            r.content_schema_version == CONTENT_SCHEMA_VERSION,
    {
        let record = &detected.record;
        IdentifiedSourceRuntime {
            operator_location: operator_location.to_owned(),
            source_identity: record.source_identity.clone(),
            source_kind: record.source_kind.clone(),
            display_name: record.display_name.clone(),
            transport_uri: record.transport_uri.clone(),
            identity_basis: detected.identity_basis.clone(),
            identity_label: identity_label(detected.identity_basis.as_str()).to_owned(),
            identity_value: identity_value_from_evidence(
                record.identity_evidence_json.as_str(),
                detected.identity_basis.as_str(),
                record.source_identity.as_str(),
            ),
            confidence: detected.confidence.as_str().to_owned(),
            seen_at: seen_at.to_owned(),
            registry_database_uri: self.locator.registry_database_uri(),
            registry_schema_version: REGISTRY_SCHEMA_VERSION,
            content_database_uri: self.locator.module_database_uri(
                record.source_identity.as_str(),
                crate::db::MODULE_CONTENT,
            ),
            content_schema_version: CONTENT_SCHEMA_VERSION,
        }
    }

    /// What the browser lists for a source kind and path.
    pub fn list_source_entries(&self, kind: SourceKind, path: &str) -> (r: SourceListing)
        ensures
            kind != SourceKind::Local ==> (r matches SourceListing::Snapshot(s) && !s.roots
                && s.path@ == trim(path@) && s.parent is None && s.entries@.len() == 0
                && s.selected_root_label is None),
            kind == SourceKind::Local && trim(path@).len() == 0 ==> r == SourceListing::LocalRoots,
            kind == SourceKind::Local && trim(path@).len() > 0 ==> (r matches SourceListing::LocalDirectory(
                p,
            ) && p@ == trim(path@)),
    {
        let t = trim_str(path);
        match kind {
            SourceKind::Local => {
                if t.len() == 0 {
                    SourceListing::LocalRoots
                } else {
                    SourceListing::LocalDirectory(string_of(&t))
                }
            },
            _ => SourceListing::Snapshot(
                SourceEntrySnapshot {
                    roots: false,
                    path: string_of(&t),
                    parent: None,
                    entries: Vec::new(),
                    selected_root_label: None,
                },
            ),
        }
    }
}

/// The UTC text of a Unix time in whole seconds.
pub fn format_unix_utc(seconds: u64) -> (r: String)
    ensures
        r@ == crate::scanner::utc_text(seconds as nat, 0),
{
    crate::scanner::format_unix_utc(seconds, 0)
}

proof fn lemma_scheme_kept(bt: Seq<char>, s: Seq<char>, scheme: Seq<char>)
    requires
        starts_with(trim(bt), scheme),
        scheme.len() > 0,
        s.len() > 0,
        !is_ws(s.last()),
    ensures
        starts_with(trim(bt + s), scheme),
{
    crate::text::lemma_lead_stop(bt, ws_pred());
    let a = lead_by(bt, ws_pred());
    assert(a < bt.len()) by {
        if a == bt.len() {
            assert(trim_start_by(bt, ws_pred()) =~= Seq::<char>::empty());
        }
    }
    crate::text::lemma_lead_append(bt, s, ws_pred());
    let t = trim_start_by(bt, ws_pred());
    assert(trim_start_by(bt + s, ws_pred()) =~= t + s);
    assert((t + s).last() == s.last());
    assert(trail_by(t + s, ws_pred()) == 0);
    assert(trim(bt + s) =~= t + s);
    crate::text::lemma_trail_stop(t, ws_pred());
    assert(trim(bt) =~= t.take(t.len() - trail_by(t, ws_pred())));
    assert((t + s).take(scheme.len() as int) =~= trim(bt).take(scheme.len() as int));
}

proof fn lemma_transport_kept(bt: Seq<char>, s: Seq<char>)
    requires
        is_qnc_transport(bt),
        s.len() > 0,
        !is_ws(s.last()),
    ensures
        is_qnc_transport(bt + s),
{
    reveal_strlit("qnc+local://");
    reveal_strlit("qnc+lan://");
    reveal_strlit("qnc+intranet://");
    if starts_with(trim(bt), "qnc+local://"@) {
        lemma_scheme_kept(bt, s, "qnc+local://"@);
    } else if starts_with(trim(bt), "qnc+lan://"@) {
        lemma_scheme_kept(bt, s, "qnc+lan://"@);
    } else {
        lemma_scheme_kept(bt, s, "qnc+intranet://"@);
    }
}

/// The locations recorded for the databases are QNC transport URIs: the
/// registry's and every module database's URI keep the transport scheme
/// of the URI base. Left out are bases that keep no transport scheme once
/// their trailing `/` are dropped (nothing but `/` after the scheme).
pub proof fn lemma_database_uris_are_transport(
    uri_base: Seq<char>,
    source_identity: Seq<char>,
    module: Seq<char>,
)
    requires
        is_qnc_transport(base_text(uri_base)),
    ensures
        is_qnc_transport(registry_uri(uri_base)),
        is_qnc_transport(module_uri(uri_base, source_identity, module)),
{
    reveal_strlit("/registry.sqlite");
    reveal_strlit(".sqlite");
    let bt = base_text(uri_base);
    lemma_transport_kept(bt, "/registry.sqlite"@);
    let rest = "/sources/"@ + normalize_id(source_identity) + seq!['/'] + normalize_id(module)
        + ".sqlite"@;
    assert(rest.last() == 'e');
    assert(module_uri(uri_base, source_identity, module) =~= bt + rest);
    lemma_transport_kept(bt, rest);
}

} // verus!
