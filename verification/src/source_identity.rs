//! Source identity detection: turns an operator location (a local access
//! path or a QNC transport URI) and, for local paths, the evidence read from
//! the medium into the stable identity record of the registry.
use vstd::prelude::*;
use crate::db::SourceIdentityRecord;
use crate::digest::{digest_prefix_hex, lower_hex_text, short_digest_hex};
use crate::evidence::{
    envelope_json, local_evidence_json, network_evidence_json, opt_chars, render_envelope,
    render_local_evidence, render_network_evidence, render_signature_payload, signature_payload,
    EnvelopeFields,
};
use crate::fmt::opt_view;
use crate::text::{
    append, append_str, chars_of, collapse_underscores, collapse_underscores_chars, copy_chars,
    drop_first_part, eq_pred, is_alnum_char, is_ascii_alnum, join, join_chars, last_index_of,
    lower, lower_char, lower_char_exec, lower_chars, nonempty, nonempty_parts, replace_char,
    replace_char_chars, rfind_char, split, split_char, split_once, split_once_char, starts_with,
    starts_with_str, string_of, strip_prefix_str, subrange, texts, trim, trim_both_char, trim_by,
    trim_char, trim_chars, trim_end_by, trim_end_char, trim_start_by, trim_start_char, trim_str,
    is_ws, lead_by, trail_by, ws_pred,
};

verus! {

// ---------------------------------------------------------------------------
// Requests, results and errors
// ---------------------------------------------------------------------------

/// What the operator selected, when, and on which host platform. The
/// platform names (`std::env::consts::OS` and `ARCH` of the running program)
/// are recorded in the evidence; they are empty until the caller sets them.
#[derive(Debug, Clone, PartialEq, Eq)]
pub struct SourceIdentityRequest {
    pub location: String,
    pub seen_at: String,
    pub display_name_hint: Option<String>,
    pub host_os: String,
    pub host_arch: String,
}

impl SourceIdentityRequest {
    pub fn new(location: &str, seen_at: &str) -> (r: Self)
        ensures
            r.location@ == location@,
            r.seen_at@ == seen_at@,
            r.display_name_hint is None,
            r.host_os@ == Seq::<char>::empty(),
            r.host_arch@ == Seq::<char>::empty(),
    {
        SourceIdentityRequest {
            location: location.to_owned(),
            seen_at: seen_at.to_owned(),
            display_name_hint: None,
            host_os: String::new(),
            host_arch: String::new(),
        }
    }

    /// The same request with a display name chosen by the operator.
    pub fn with_display_name(self, display_name: &str) -> (r: Self)
        ensures
            r.location == self.location,
            r.seen_at == self.seen_at,
            opt_view(&r.display_name_hint) == Some(display_name@),
            r.host_os == self.host_os,
            r.host_arch == self.host_arch,
    {
        SourceIdentityRequest {
            location: self.location,
            seen_at: self.seen_at,
            display_name_hint: Some(display_name.to_owned()),
            host_os: self.host_os,
            host_arch: self.host_arch,
        }
    }

    /// The same request, recording the platform that runs the detection.
    pub fn with_host_platform(self, os: &str, arch: &str) -> (r: Self)
        ensures
            r.location == self.location,
            r.seen_at == self.seen_at,
            r.display_name_hint == self.display_name_hint,
            r.host_os@ == os@,
            r.host_arch@ == arch@,
    {
        SourceIdentityRequest {
            location: self.location,
            seen_at: self.seen_at,
            display_name_hint: self.display_name_hint,
            host_os: os.to_owned(),
            host_arch: arch.to_owned(),
        }
    }
}

#[derive(Debug, Clone, Copy, PartialEq, Eq, Structural)]
pub enum SourceIdentityConfidence {
    Strong,
    Medium,
    Fallback,
}

pub open spec fn confidence_text(c: SourceIdentityConfidence) -> Seq<char> {
    match c {
        SourceIdentityConfidence::Strong => "strong"@,
        SourceIdentityConfidence::Medium => "medium"@,
        SourceIdentityConfidence::Fallback => "fallback"@,
    }
}

impl SourceIdentityConfidence {
    pub fn as_str(self) -> (r: &'static str)
        ensures
            r@ == confidence_text(self),
    {
        match self {
            SourceIdentityConfidence::Strong => "strong",
            SourceIdentityConfidence::Medium => "medium",
            SourceIdentityConfidence::Fallback => "fallback",
        }
    }
}

#[derive(Debug, Clone, PartialEq, Eq)]
pub struct DetectedSourceIdentity {
    pub record: SourceIdentityRecord,
    pub confidence: SourceIdentityConfidence,
    pub identity_basis: String,
}

/// The mathematical content of a detected identity.
pub struct DetectedView {
    pub source_identity: Seq<char>,
    pub source_kind: Seq<char>,
    pub display_name: Seq<char>,
    pub transport_uri: Seq<char>,
    pub identity_evidence_json: Seq<char>,
    pub fallback_fingerprint: Option<Seq<char>>,
    pub seen_at: Seq<char>,
    pub confidence: SourceIdentityConfidence,
    pub identity_basis: Seq<char>,
}

impl View for DetectedSourceIdentity {
    type V = DetectedView;

    open spec fn view(&self) -> DetectedView {
        DetectedView {
            source_identity: self.record.source_identity@,
            source_kind: self.record.source_kind@,
            display_name: self.record.display_name@,
            transport_uri: self.record.transport_uri@,
            identity_evidence_json: self.record.identity_evidence_json@,
            fallback_fingerprint: opt_view(&self.record.fallback_fingerprint),
            seen_at: self.record.seen_at@,
            confidence: self.confidence,
            identity_basis: self.identity_basis@,
        }
    }
}

/// Everything a local evidence provider could read from a medium.
#[derive(Debug, Clone, PartialEq, Eq)]
pub struct LocalSourceEvidence {
    pub marker_source_identity: Option<String>,
    pub marker_source_kind: Option<String>,
    pub marker_display_name: Option<String>,
    pub marker_transport_uri: Option<String>,
    pub marker_path: Option<String>,
    pub media_serial: Option<String>,
    pub volume_uuid: Option<String>,
    pub volume_label: Option<String>,
    pub canonical_path: Option<String>,
    pub root_exists: bool,
    pub top_level_entries: Vec<String>,
    pub camera_layout: Vec<String>,
    pub provider_notes: Vec<String>,
}

impl Default for LocalSourceEvidence {
    fn default() -> (r: Self)
        ensures
            r.marker_source_identity is None,
            r.marker_source_kind is None,
            r.marker_display_name is None,
            r.marker_transport_uri is None,
            r.marker_path is None,
            r.media_serial is None,
            r.volume_uuid is None,
            r.volume_label is None,
            r.canonical_path is None,
            !r.root_exists,
            r.top_level_entries@.len() == 0,
            r.camera_layout@.len() == 0,
            r.provider_notes@.len() == 0,
    {
        LocalSourceEvidence {
            marker_source_identity: None,
            marker_source_kind: None,
            marker_display_name: None,
            marker_transport_uri: None,
            marker_path: None,
            media_serial: None,
            volume_uuid: None,
            volume_label: None,
            canonical_path: None,
            root_exists: false,
            top_level_entries: Vec::new(),
            camera_layout: Vec::new(),
            provider_notes: Vec::new(),
        }
    }
}

/// The endpoint of a transport URI or UNC path.
#[derive(Debug, Clone, PartialEq, Eq)]
pub struct NetworkSourceEvidence {
    pub input_location: String,
    pub host: String,
    pub share_or_gateway_path: String,
    pub transport_uri: String,
}

pub struct NetworkView {
    pub input_location: Seq<char>,
    pub host: Seq<char>,
    pub share_or_gateway_path: Seq<char>,
    pub transport_uri: Seq<char>,
}

impl View for NetworkSourceEvidence {
    type V = NetworkView;

    open spec fn view(&self) -> NetworkView {
        NetworkView {
            input_location: self.input_location@,
            host: self.host@,
            share_or_gateway_path: self.share_or_gateway_path@,
            transport_uri: self.transport_uri@,
        }
    }
}

/// Reads what a local medium holds: the program reads marker files,
/// platform volume information and the root directory; tests substitute
/// fixed evidence.
pub trait SourceIdentityEvidenceProvider {
    /// `ev` is evidence this provider may give for the medium at `root`; a
    /// provider that says nothing more may give any evidence.
    open spec fn reads(&self, root: Seq<char>, ev: LocalSourceEvidence) -> bool {
        true
    }

    fn local_evidence(&self, root: &str) -> (r: LocalSourceEvidence)
        ensures
            self.reads(root@, r),
    ;
}

#[derive(Debug, Clone, PartialEq, Eq)]
pub enum SourceIdentityError {
    EmptyLocation,
    InvalidLocation(String),
    InsufficientLocalEvidence(String),
    EvidenceJson(String),
}

pub enum IdentityErrorView {
    EmptyLocation,
    InvalidLocation(Seq<char>),
    InsufficientLocalEvidence(Seq<char>),
    EvidenceJson(Seq<char>),
}

impl View for SourceIdentityError {
    type V = IdentityErrorView;

    open spec fn view(&self) -> IdentityErrorView {
        match self {
            SourceIdentityError::EmptyLocation => IdentityErrorView::EmptyLocation,
            SourceIdentityError::InvalidLocation(m) => IdentityErrorView::InvalidLocation(m@),
            SourceIdentityError::InsufficientLocalEvidence(m) => {
                IdentityErrorView::InsufficientLocalEvidence(m@)
            },
            SourceIdentityError::EvidenceJson(m) => IdentityErrorView::EvidenceJson(m@),
        }
    }
}

pub open spec fn error_message(e: IdentityErrorView) -> Seq<char> {
    match e {
        IdentityErrorView::EmptyLocation => "source location is empty"@,
        IdentityErrorView::InvalidLocation(m) => "invalid source location: "@ + m,
        IdentityErrorView::InsufficientLocalEvidence(m) => {
            "insufficient local source identity evidence: "@ + m
        },
        IdentityErrorView::EvidenceJson(m) => "source identity evidence JSON failed: "@ + m,
    }
}

impl SourceIdentityError {
    /// The text the error displays.
    pub fn message(&self) -> (r: String)
        ensures
            r@ == error_message(self@),
    {
        let mut out: Vec<char> = Vec::new();
        match self {
            SourceIdentityError::EmptyLocation => {
                append_str(&mut out, "source location is empty");
            },
            SourceIdentityError::InvalidLocation(m) => {
                append_str(&mut out, "invalid source location: ");
                append_str(&mut out, m.as_str());
            },
            SourceIdentityError::InsufficientLocalEvidence(m) => {
                append_str(&mut out, "insufficient local source identity evidence: ");
                append_str(&mut out, m.as_str());
            },
            SourceIdentityError::EvidenceJson(m) => {
                append_str(&mut out, "source identity evidence JSON failed: ");
                append_str(&mut out, m.as_str());
            },
        }
        string_of(&out)
    }
}

pub open spec fn outcome_view(r: Result<DetectedSourceIdentity, SourceIdentityError>) -> Result<
    DetectedView,
    IdentityErrorView,
> {
    match r {
        Ok(d) => Ok(d@),
        Err(e) => Err(e@),
    }
}

// ---------------------------------------------------------------------------
// Text rules
// ---------------------------------------------------------------------------

/// The character an identity part keeps for `c`.
pub open spec fn id_char(c: char) -> char {
    if is_ascii_alnum(c) || c == '-' || c == '_' || c == '.' {
        lower_char(c)
    } else {
        '_'
    }
}

/// An identity part: trimmed, lowercased, other characters as `_`, runs of
/// `_` collapsed, no `_` at either end.
pub open spec fn normalize_id(s: Seq<char>) -> Seq<char> {
    trim_char(collapse_underscores(trim(s).map_values(|c: char| id_char(c))), '_')
}

pub open spec fn norm_host(h: Seq<char>) -> Seq<char> {
    lower(trim(h))
}

/// A present value after trimming, when it is not empty.
pub open spec fn clean_opt(o: Option<Seq<char>>) -> Option<Seq<char>> {
    match o {
        Some(s) => if trim(s).len() > 0 {
            Some(trim(s))
        } else {
            None
        },
        None => None,
    }
}

pub open spec fn is_qnc_transport(uri: Seq<char>) -> bool {
    let t = trim(uri);
    starts_with(t, "qnc+local://"@) || starts_with(t, "qnc+lan://"@) || starts_with(
        t,
        "qnc+intranet://"@,
    )
}

/// Host and `/`-prefixed path of `host/path`; `None` when the host is empty.
pub open spec fn host_path(rest: Seq<char>) -> Option<(Seq<char>, Seq<char>)> {
    let t = trim(rest);
    match split_once(t, '/') {
        None => if trim(t).len() == 0 {
            None
        } else {
            Some((trim(t), Seq::<char>::empty()))
        },
        Some(hp) => if trim(hp.0).len() == 0 {
            None
        } else {
            Some((trim(hp.0), seq!['/'] + trim_char(hp.1, '/')))
        },
    }
}

pub open spec fn host_empty_error() -> IdentityErrorView {
    IdentityErrorView::InvalidLocation("transport URI host is empty"@)
}

/// The endpoint named by the text after a scheme.
pub open spec fn endpoint_evidence(location: Seq<char>, scheme: Seq<char>, rest: Seq<char>) -> Result<
    Option<NetworkView>,
    IdentityErrorView,
> {
    match host_path(rest) {
        None => Err(host_empty_error()),
        Some(hp) => Ok(
            Some(
                NetworkView {
                    input_location: location,
                    host: hp.0,
                    share_or_gateway_path: trim_start_by(hp.1, eq_pred('/')),
                    transport_uri: scheme + norm_host(hp.0) + hp.1,
                },
            ),
        ),
    }
}

pub open spec fn parse_local_transport(location: Seq<char>) -> Result<
    Option<NetworkView>,
    IdentityErrorView,
> {
    if starts_with(location, "qnc+local://"@) {
        endpoint_evidence(location, "qnc+local://"@, location.skip(12))
    } else {
        Ok(None)
    }
}

pub open spec fn parse_intranet(location: Seq<char>) -> Result<
    Option<NetworkView>,
    IdentityErrorView,
> {
    if starts_with(location, "qnc+intranet://"@) {
        endpoint_evidence(location, "qnc+intranet://"@, location.skip(15))
    } else if starts_with(location, "qnc://"@) {
        endpoint_evidence(location, "qnc+intranet://"@, location.skip(6))
    } else {
        Ok(None)
    }
}

/// A UNC path `\\server\share\...` (or with `/`), after its two separators.
pub open spec fn unc_evidence(rest: Seq<char>, location: Seq<char>, sep: char) -> Result<
    Option<NetworkView>,
    IdentityErrorView,
> {
    let parts = nonempty(split(rest, sep));
    if parts.len() < 2 {
        Err(
            IdentityErrorView::InvalidLocation(
                "UNC location must include server and share: "@ + location,
            ),
        )
    } else {
        let share = join(parts.skip(1), seq!['/']);
        Ok(
            Some(
                NetworkView {
                    input_location: location,
                    host: parts[0],
                    share_or_gateway_path: share,
                    transport_uri: "qnc+lan://"@ + norm_host(parts[0]) + seq!['/'] + share,
                },
            ),
        )
    }
}

pub open spec fn parse_lan(location: Seq<char>) -> Result<Option<NetworkView>, IdentityErrorView> {
    if starts_with(location, "qnc+lan://"@) {
        endpoint_evidence(location, "qnc+lan://"@, location.skip(10))
    } else if starts_with(location, seq!['\\', '\\']) {
        unc_evidence(location.skip(2), location, '\\')
    } else if starts_with(location, seq!['/', '/']) {
        unc_evidence(location.skip(2), location, '/')
    } else {
        Ok(None)
    }
}

// ---------------------------------------------------------------------------
// Executable text rules
// ---------------------------------------------------------------------------

fn normalize_id_chars(value: &[char]) -> (r: Vec<char>)
    ensures
        r@ == normalize_id(value@),
{
    let t = trim_chars(value);
    let mut m: Vec<char> = Vec::new();
    let mut i: usize = 0;
    while i < t.len()
        invariant
            i <= t@.len(),
            m@ == t@.take(i as int).map_values(|c: char| id_char(c)),
        decreases t@.len() - i,
    {
        let c = t[i];
        if is_alnum_char(c) || c == '-' || c == '_' || c == '.' {
            m.push(lower_char_exec(c));
        } else {
            m.push('_');
        }
        i = i + 1;
        assert(m@ =~= t@.take(i as int).map_values(|c: char| id_char(c)));
    }
    assert(t@.take(t@.len() as int) =~= t@);
    let c = collapse_underscores_chars(&m);
    trim_both_char(&c, '_')
}

/// The normalized identity part of `value`.
pub fn normalize_id_part(value: &str) -> (r: String)
    ensures
        r@ == normalize_id(value@),
{
    let v = chars_of(value);
    let n = normalize_id_chars(&v);
    string_of(&n)
}

fn norm_host_chars(h: &[char]) -> (r: Vec<char>)
    ensures
        r@ == norm_host(h@),
{
    let t = trim_chars(h);
    lower_chars(&t)
}

/// `value` trimmed, when something is left.
pub fn clean_optional(value: &Option<String>) -> (r: Option<String>)
    ensures
        opt_view(&r) == clean_opt(opt_view(value)),
{
    match value {
        Some(s) => {
            let t = trim_str(s.as_str());
            if t.len() > 0 {
                Some(string_of(&t))
            } else {
                None
            }
        },
        None => None,
    }
}

pub fn is_qnc_transport_uri(uri: &[char]) -> (r: bool)
    ensures
        r == is_qnc_transport(uri@),
{
    let t = trim_chars(uri);
    starts_with_str(&t, "qnc+local://") || starts_with_str(&t, "qnc+lan://") || starts_with_str(
        &t,
        "qnc+intranet://",
    )
}

fn host_empty() -> (e: SourceIdentityError)
    ensures
        e@ == host_empty_error(),
{
    SourceIdentityError::InvalidLocation("transport URI host is empty".to_owned())
}

/// Splits `host/path` into the trimmed host and the `/`-prefixed path.
pub fn split_host_path(rest: &[char]) -> (r: Result<(Vec<char>, Vec<char>), SourceIdentityError>)
    ensures
        r matches Ok(hp) ==> host_path(rest@) == Some((hp.0@, hp.1@)),
        r matches Err(e) ==> host_path(rest@) is None && e@ == host_empty_error(),
{
    let t = trim_chars(rest);
    match split_once_char(&t, '/') {
        None => {
            let h = trim_chars(&t);
            if h.len() == 0 {
                Err(host_empty())
            } else {
                Ok((h, Vec::new()))
            }
        },
        Some((host, path)) => {
            let h = trim_chars(&host);
            if h.len() == 0 {
                Err(host_empty())
            } else {
                let mut p: Vec<char> = Vec::new();
                p.push('/');
                let inner = trim_both_char(&path, '/');
                append(&mut p, &inner);
                Ok((h, p))
            }
        },
    }
}

fn endpoint_of(location: &[char], scheme: &str, rest: &[char]) -> (r: Result<
    Option<NetworkSourceEvidence>,
    SourceIdentityError,
>)
    ensures
        match r {
            Ok(Some(n)) => endpoint_evidence(location@, scheme@, rest@) == Ok::<
                Option<NetworkView>,
                IdentityErrorView,
            >(Some(n@)),
            Ok(None) => false,
            Err(e) => endpoint_evidence(location@, scheme@, rest@) == Err::<
                Option<NetworkView>,
                IdentityErrorView,
            >(e@),
        },
{
    match split_host_path(rest) {
        Err(e) => Err(e),
        Ok((host, path)) => {
            let mut uri: Vec<char> = Vec::new();
            append_str(&mut uri, scheme);
            let nh = norm_host_chars(&host);
            append(&mut uri, &nh);
            append(&mut uri, &path);
            let share = trim_start_char(&path, '/');
            Ok(
                Some(
                    NetworkSourceEvidence {
                        input_location: string_of(location),
                        host: string_of(&host),
                        share_or_gateway_path: string_of(&share),
                        transport_uri: string_of(&uri),
                    },
                ),
            )
        },
    }
}

pub open spec fn parse_view(r: Result<Option<NetworkSourceEvidence>, SourceIdentityError>) -> Result<
    Option<NetworkView>,
    IdentityErrorView,
> {
    match r {
        Ok(Some(n)) => Ok(Some(n@)),
        Ok(None) => Ok(None),
        Err(e) => Err(e@),
    }
}

/// A `qnc+local://` location.
pub fn parse_local_transport_location(location: &[char]) -> (r: Result<
    Option<NetworkSourceEvidence>,
    SourceIdentityError,
>)
    ensures
        parse_view(r) == parse_local_transport(location@),
{
    match strip_prefix_str(location, "qnc+local://") {
        Some(rest) => {
            proof {
                reveal_strlit("qnc+local://");
            }
            endpoint_of(location, "qnc+local://", &rest)
        },
        None => Ok(None),
    }
}

/// A `qnc+intranet://` or `qnc://` location.
pub fn parse_intranet_location(location: &[char]) -> (r: Result<
    Option<NetworkSourceEvidence>,
    SourceIdentityError,
>)
    ensures
        parse_view(r) == parse_intranet(location@),
{
    match strip_prefix_str(location, "qnc+intranet://") {
        Some(rest) => {
            proof {
                reveal_strlit("qnc+intranet://");
            }
            endpoint_of(location, "qnc+intranet://", &rest)
        },
        None => match strip_prefix_str(location, "qnc://") {
            Some(rest) => {
                proof {
                    reveal_strlit("qnc://");
                }
                endpoint_of(location, "qnc+intranet://", &rest)
            },
            None => Ok(None),
        },
    }
}

/// A UNC location, given the text after its leading two separators.
pub fn parse_unc(rest: &[char], location: &[char], separator: char) -> (r: Result<
    Option<NetworkSourceEvidence>,
    SourceIdentityError,
>)
    ensures
        parse_view(r) == unc_evidence(rest@, location@, separator),
{
    let pieces = split_char(rest, separator);
    let parts = nonempty_parts(&pieces);
    if parts.len() < 2 {
        let mut m: Vec<char> = Vec::new();
        append_str(&mut m, "UNC location must include server and share: ");
        append(&mut m, location);
        return Err(SourceIdentityError::InvalidLocation(string_of(&m)));
    }
    let tail = drop_first_part(&parts);
    let sep = vec!['/'];
    let share = join_chars(&tail, &sep);
    assert(sep@ =~= seq!['/']);
    let host = copy_chars(&parts[0]);
    assert(texts(parts@)[0] == parts@[0]@);
    assert(texts(parts@).len() == parts@.len());
    let mut uri: Vec<char> = Vec::new();
    append_str(&mut uri, "qnc+lan://");
    let nh = norm_host_chars(&host);
    append(&mut uri, &nh);
    uri.push('/');
    append(&mut uri, &share);
    proof {
        let pv = nonempty(split(rest@, separator));
        assert(texts(parts@) == pv);
        assert(host@ == pv[0]);
        assert(share@ == join(pv.skip(1), seq!['/']));
        assert(uri@ =~= "qnc+lan://"@ + norm_host(pv[0]) + seq!['/'] + share@);
    }
    Ok(
        Some(
            NetworkSourceEvidence {
                input_location: string_of(location),
                host: string_of(&host),
                share_or_gateway_path: string_of(&share),
                transport_uri: string_of(&uri),
            },
        ),
    )
}

/// A `qnc+lan://` location or a UNC path.
pub fn parse_lan_location(location: &[char]) -> (r: Result<
    Option<NetworkSourceEvidence>,
    SourceIdentityError,
>)
    ensures
        parse_view(r) == parse_lan(location@),
{
    match strip_prefix_str(location, "qnc+lan://") {
        Some(rest) => {
            proof {
                reveal_strlit("qnc+lan://");
            }
            endpoint_of(location, "qnc+lan://", &rest)
        },
        None => {
            let bs = vec!['\\', '\\'];
            let fs = vec!['/', '/'];
            if crate::text::starts_with_chars(location, &bs) {
                assert(bs@ =~= seq!['\\', '\\']);
                let rest = subrange(location, 2, location.len());
                parse_unc(&rest, location, '\\')
            } else if crate::text::starts_with_chars(location, &fs) {
                assert(bs@ =~= seq!['\\', '\\']);
                assert(fs@ =~= seq!['/', '/']);
                let rest = subrange(location, 2, location.len());
                parse_unc(&rest, location, '/')
            } else {
                assert(bs@ =~= seq!['\\', '\\']);
                assert(fs@ =~= seq!['/', '/']);
                Ok(None)
            }
        },
    }
}

// ---------------------------------------------------------------------------
// Display names of local paths
// ---------------------------------------------------------------------------

/// `X:/` with a one-byte drive character.
pub open spec fn is_drive_root_text(p: Seq<char>) -> bool {
    p.len() == 3 && (p[0] as u32) < 128 && p[1] == ':' && p[2] == '/'
}

/// A path with `/` separators and no trailing `/`, except a drive root `X:/`.
pub open spec fn normalize_path(path: Seq<char>) -> Seq<char> {
    let replaced = replace_char(trim(path), '\\', '/');
    if is_drive_root_text(replaced) {
        replaced
    } else {
        trim_end_by(replaced, eq_pred('/'))
    }
}

/// The text after the last `/`, or all of it.
pub open spec fn last_segment(s: Seq<char>) -> Seq<char> {
    match last_index_of(s, '/') {
        Some(i) => s.skip((i + 1) as int),
        None => s,
    }
}

/// The last segment of a local path, used when nothing names the medium.
pub open spec fn display_name_from(path: Seq<char>) -> Seq<char> {
    let t = trim_end_by(normalize_path(path), eq_pred('/'));
    if last_segment(t).len() > 0 {
        last_segment(t)
    } else {
        t
    }
}

fn is_drive_root_chars(p: &[char]) -> (r: bool)
    ensures
        r == is_drive_root_text(p@),
{
    p.len() == 3 && (p[0] as u32) < 128 && p[1] == ':' && p[2] == '/'
}

/// Whether `path` is a drive root written `X:/`.
pub fn is_windows_drive_root_text(path: &str) -> (r: bool)
    ensures
        r == is_drive_root_text(path@),
{
    let v = chars_of(path);
    is_drive_root_chars(&v)
}

fn normalize_path_chars(path: &[char]) -> (r: Vec<char>)
    ensures
        r@ == normalize_path(path@),
{
    let t = trim_chars(path);
    let replaced = replace_char_chars(&t, '\\', '/');
    if is_drive_root_chars(&replaced) {
        replaced
    } else {
        trim_end_char(&replaced, '/')
    }
}

/// The path trimmed, with `/` separators and no trailing separator.
pub fn normalize_path_text(path: &str) -> (r: String)
    ensures
        r@ == normalize_path(path@),
{
    let v = chars_of(path);
    let n = normalize_path_chars(&v);
    string_of(&n)
}

fn display_name_chars(path: &[char]) -> (r: Vec<char>)
    ensures
        r@ == display_name_from(path@),
{
    let n = normalize_path_chars(path);
    let t = trim_end_char(&n, '/');
    let seg = match rfind_char(&t, '/') {
        Some(i) => {
            let n = t.len();
            assert(i < n);
            subrange(&t, i + 1, n)
        },
        None => copy_chars(&t),
    };
    if seg.len() > 0 {
        seg
    } else {
        t
    }
}

/// The name shown for a local path that carries no other name.
pub fn display_name_from_path(path: &str) -> (r: String)
    ensures
        r@ == display_name_from(path@),
{
    let v = chars_of(path);
    let d = display_name_chars(&v);
    string_of(&d)
}

// ---------------------------------------------------------------------------
// Identity outcomes
// ---------------------------------------------------------------------------

pub open spec fn hint_or(req: SourceIdentityRequest, otherwise: Seq<char>) -> Seq<char> {
    match opt_view(&req.display_name_hint) {
        Some(d) => d,
        None => otherwise,
    }
}

/// The identity of a LAN share or intranet gateway endpoint.
pub open spec fn network_outcome(req: SourceIdentityRequest, kind: Seq<char>, n: NetworkView) -> DetectedView {
    let prefix = if kind == "lan_share"@ {
        "lan"@
    } else {
        "intranet"@
    };
    let path_part = if trim(n.share_or_gateway_path).len() == 0 {
        Seq::<char>::empty()
    } else {
        seq![':'] + normalize_id(n.share_or_gateway_path)
    };
    DetectedView {
        source_identity: prefix + seq![':'] + normalize_id(n.host) + path_part,
        source_kind: kind,
        display_name: hint_or(
            req,
            trim(n.host + seq![' '] + trim_char(n.share_or_gateway_path, '/')),
        ),
        transport_uri: n.transport_uri,
        identity_evidence_json: envelope_json(
            EnvelopeFields {
                input_location: req.location@,
                source_kind: kind,
                transport_uri: n.transport_uri,
                identity_basis: "transport_endpoint"@,
                confidence: "medium"@,
                os: req.host_os@,
                arch: req.host_arch@,
                local: None,
                network: Some(network_evidence_json(n)),
            },
        ),
        fallback_fingerprint: None,
        seen_at: req.seen_at@,
        confidence: SourceIdentityConfidence::Medium,
        identity_basis: "transport_endpoint"@,
    }
}

/// What a `qnc+local://localhost/<kind>/<id>` endpoint names.
pub struct EndpointSelection {
    pub identity: Seq<char>,
    pub kind: Seq<char>,
    pub confidence: SourceIdentityConfidence,
    pub basis: Seq<char>,
}

pub open spec fn endpoint_selection(endpoint: Seq<char>) -> Option<EndpointSelection> {
    if starts_with(endpoint, "card/"@) {
        Some(
            EndpointSelection {
                identity: "card:"@ + normalize_id(endpoint.skip("card/"@.len() as int)),
                kind: "local_card"@,
                confidence: SourceIdentityConfidence::Medium,
                basis: "local_transport_card"@,
            },
        )
    } else if starts_with(endpoint, "volume/"@) {
        Some(
            EndpointSelection {
                identity: "volume:"@ + normalize_id(endpoint.skip("volume/"@.len() as int)),
                kind: "local_volume"@,
                confidence: SourceIdentityConfidence::Medium,
                basis: "local_transport_volume"@,
            },
        )
    } else if starts_with(endpoint, "fallback/"@) {
        Some(
            EndpointSelection {
                identity: "local:"@ + normalize_id(endpoint.skip("fallback/"@.len() as int)),
                kind: "local_volume"@,
                confidence: SourceIdentityConfidence::Fallback,
                basis: "local_transport_fallback"@,
            },
        )
    } else if starts_with(endpoint, "source/"@) {
        Some(
            EndpointSelection {
                identity: normalize_id(endpoint.skip("source/"@.len() as int)),
                kind: "local_volume"@,
                confidence: SourceIdentityConfidence::Medium,
                basis: "local_transport_source"@,
            },
        )
    } else {
        None
    }
}

/// The identity named by a `qnc+local://` location.
pub open spec fn local_transport_outcome(req: SourceIdentityRequest, n: NetworkView) -> Result<
    DetectedView,
    IdentityErrorView,
> {
    let endpoint = trim_char(n.share_or_gateway_path, '/');
    match endpoint_selection(endpoint) {
        None => Err(
            IdentityErrorView::InvalidLocation(
                "qnc+local endpoint must start with card/, volume/, source/ or fallback/: "@
                    + req.location@,
            ),
        ),
        Some(sel) => Ok(
            DetectedView {
                source_identity: sel.identity,
                source_kind: sel.kind,
                display_name: hint_or(req, replace_char(endpoint, '/', ' ')),
                transport_uri: n.transport_uri,
                identity_evidence_json: envelope_json(
                    EnvelopeFields {
                        input_location: req.location@,
                        source_kind: sel.kind,
                        transport_uri: n.transport_uri,
                        identity_basis: sel.basis,
                        confidence: confidence_text(sel.confidence),
                        os: req.host_os@,
                        arch: req.host_arch@,
                        local: None,
                        network: Some(network_evidence_json(n)),
                    },
                ),
                fallback_fingerprint: None,
                seen_at: req.seen_at@,
                confidence: sel.confidence,
                identity_basis: sel.basis,
            },
        ),
    }
}

/// The fallback fingerprint of a medium: the first 12 bytes of the SHA-256
/// digest of its root signature, in hex, when there is any signature
/// material.
pub open spec fn root_signature(ev: LocalSourceEvidence) -> Option<Seq<char>> {
    if ev.volume_label is Some || ev.top_level_entries@.len() > 0 || ev.camera_layout@.len() > 0 {
        Some(short_digest_hex(vstd::utf8::encode_utf8(signature_payload(ev)), 12))
    } else {
        None
    }
}

/// Which evidence a local identity rests on, strongest first.
pub struct LocalSelection {
    pub identity: Seq<char>,
    pub confidence: SourceIdentityConfidence,
    pub basis: Seq<char>,
    pub fallback: Option<Seq<char>>,
    pub generated_uri: Seq<char>,
}

pub open spec fn local_selection(ev: LocalSourceEvidence) -> Option<LocalSelection> {
    let sig = root_signature(ev);
    match clean_opt(opt_view(&ev.marker_source_identity)) {
        Some(id) => Some(
            LocalSelection {
                identity: id,
                confidence: SourceIdentityConfidence::Strong,
                basis: "marker_source_identity"@,
                fallback: sig,
                generated_uri: "qnc+local://localhost/source/"@ + normalize_id(id),
            },
        ),
        None => match clean_opt(opt_view(&ev.media_serial)) {
            Some(serial) => Some(
                LocalSelection {
                    identity: "card:"@ + normalize_id(serial),
                    confidence: SourceIdentityConfidence::Strong,
                    basis: "media_serial"@,
                    fallback: sig,
                    generated_uri: "qnc+local://localhost/card/"@ + normalize_id(serial),
                },
            ),
            None => match clean_opt(opt_view(&ev.volume_uuid)) {
                Some(uuid) => Some(
                    LocalSelection {
                        identity: "volume:"@ + normalize_id(uuid),
                        confidence: SourceIdentityConfidence::Medium,
                        basis: "volume_uuid"@,
                        fallback: sig,
                        generated_uri: "qnc+local://localhost/volume/"@ + normalize_id(uuid),
                    },
                ),
                None => match sig {
                    Some(f) => Some(
                        LocalSelection {
                            identity: "local:"@ + f,
                            confidence: SourceIdentityConfidence::Fallback,
                            basis: "root_signature"@,
                            fallback: Some(f),
                            generated_uri: "qnc+local://localhost/fallback/"@ + f,
                        },
                    ),
                    None => None,
                },
            },
        },
    }
}

pub open spec fn local_kind(ev: LocalSourceEvidence) -> Seq<char> {
    match opt_view(&ev.marker_source_kind) {
        Some(k) => k,
        None => if ev.camera_layout@.len() > 0 || ev.media_serial is Some {
            "local_card"@
        } else {
            "local_volume"@
        },
    }
}

pub open spec fn local_display_name(req: SourceIdentityRequest, ev: LocalSourceEvidence) -> Seq<char> {
    hint_or(
        req,
        match opt_view(&ev.marker_display_name) {
            Some(d) => d,
            None => match opt_view(&ev.volume_label) {
                Some(d) => d,
                None => display_name_from(trim(req.location@)),
            },
        },
    )
}

/// The marker's transport URI when it is a QNC transport URI, else the
/// generated one.
pub open spec fn local_transport(ev: LocalSourceEvidence, generated: Seq<char>) -> Seq<char> {
    match clean_opt(opt_view(&ev.marker_transport_uri)) {
        Some(u) => if is_qnc_transport(u) {
            u
        } else {
            generated
        },
        None => generated,
    }
}

pub open spec fn insufficient_evidence_error() -> IdentityErrorView {
    IdentityErrorView::InsufficientLocalEvidence(
        "missing marker, serial, volume UUID and root signature"@,
    )
}

/// The identity of a local medium, given what its provider read.
pub open spec fn local_outcome(req: SourceIdentityRequest, ev: LocalSourceEvidence) -> Result<
    DetectedView,
    IdentityErrorView,
> {
    match local_selection(ev) {
        None => Err(insufficient_evidence_error()),
        Some(sel) => {
            let kind = local_kind(ev);
            let transport = local_transport(ev, sel.generated_uri);
            Ok(
                DetectedView {
                    source_identity: sel.identity,
                    source_kind: kind,
                    display_name: local_display_name(req, ev),
                    transport_uri: transport,
                    identity_evidence_json: envelope_json(
                        EnvelopeFields {
                            input_location: req.location@,
                            source_kind: kind,
                            transport_uri: transport,
                            identity_basis: sel.basis,
                            confidence: confidence_text(sel.confidence),
                            os: req.host_os@,
                            arch: req.host_arch@,
                            local: Some(local_evidence_json(ev)),
                            network: None,
                        },
                    ),
                    fallback_fingerprint: sel.fallback,
                    seen_at: req.seen_at@,
                    confidence: sel.confidence,
                    identity_basis: sel.basis,
                },
            )
        },
    }
}

pub open spec fn file_scheme_error() -> IdentityErrorView {
    IdentityErrorView::InvalidLocation(
        "non-QNC URI scheme cannot be used as a stable transport path"@,
    )
}

/// The outcome for every location that names its source by itself;
/// `None` for a local access path, whose identity rests on evidence.
pub open spec fn transport_outcome(req: SourceIdentityRequest) -> Option<
    Result<DetectedView, IdentityErrorView>,
> {
    let loc = trim(req.location@);
    if loc.len() == 0 {
        Some(Err(IdentityErrorView::EmptyLocation))
    } else if starts_with(loc, "file:"@) {
        Some(Err(file_scheme_error()))
    } else {
        match parse_intranet(loc) {
            Err(e) => Some(Err(e)),
            Ok(Some(n)) => Some(Ok(network_outcome(req, "intranet_gateway"@, n))),
            Ok(None) => match parse_lan(loc) {
                Err(e) => Some(Err(e)),
                Ok(Some(n)) => Some(Ok(network_outcome(req, "lan_share"@, n))),
                Ok(None) => match parse_local_transport(loc) {
                    Err(e) => Some(Err(e)),
                    Ok(Some(n)) => Some(local_transport_outcome(req, n)),
                    Ok(None) => None,
                },
            },
        }
    }
}

// ---------------------------------------------------------------------------
// Executable identity rules
// ---------------------------------------------------------------------------

fn copy_opt(o: &Option<String>) -> (r: Option<String>)
    ensures
        opt_view(&r) == opt_view(o),
{
    match o {
        Some(s) => Some(s.clone()),
        None => None,
    }
}

fn network_identity(
    request: &SourceIdentityRequest,
    kind: &str,
    network: NetworkSourceEvidence,
) -> (r: DetectedSourceIdentity)
    ensures
        r@ == network_outcome(*request, kind@, network@),
{
    let lan = crate::text::str_eq(kind, "lan_share");
    let mut id: Vec<char> = if lan {
        chars_of("lan")
    } else {
        chars_of("intranet")
    };
    let ghost prefix = id@;
    id.push(':');
    let host = chars_of(network.host.as_str());
    let nh = normalize_id_chars(&host);
    append(&mut id, &nh);
    let ghost head = id@;
    let share = chars_of(network.share_or_gateway_path.as_str());
    let ts = trim_chars(&share);
    if ts.len() > 0 {
        id.push(':');
        let ns = normalize_id_chars(&share);
        append(&mut id, &ns);
        assert(id@ =~= prefix + seq![':'] + normalize_id(network@.host) + (seq![':']
            + normalize_id(network@.share_or_gateway_path)));
    } else {
        assert(id@ =~= prefix + seq![':'] + normalize_id(network@.host)
            + Seq::<char>::empty());
    }
    let display = match &request.display_name_hint {
        Some(d) => d.clone(),
        None => {
            let mut t: Vec<char> = copy_chars(&host);
            t.push(' ');
            let inner = trim_both_char(&share, '/');
            append(&mut t, &inner);
            assert(t@ =~= network@.host + seq![' '] + trim_char(
                network@.share_or_gateway_path,
                '/',
            ));
            let tt = trim_chars(&t);
            string_of(&tt)
        },
    };
    let net_json = render_network_evidence(&network);
    let kind_chars = chars_of(kind);
    let transport = chars_of(network.transport_uri.as_str());
    let basis = chars_of("transport_endpoint");
    let json = render_envelope(
        request.location.as_str(),
        &kind_chars,
        &transport,
        &basis,
        "medium",
        request.host_os.as_str(),
        request.host_arch.as_str(),
        &None,
        &Some(net_json),
    );
    DetectedSourceIdentity {
        record: SourceIdentityRecord {
            source_identity: string_of(&id),
            source_kind: kind.to_owned(),
            display_name: display,
            transport_uri: network.transport_uri,
            identity_evidence_json: string_of(&json),
            fallback_fingerprint: None,
            seen_at: request.seen_at.clone(),
        },
        confidence: SourceIdentityConfidence::Medium,
        identity_basis: "transport_endpoint".to_owned(),
    }
}

fn select_endpoint(endpoint: &[char]) -> (r: Option<
    (Vec<char>, Vec<char>, SourceIdentityConfidence, Vec<char>),
>)
    ensures
        match r {
            Some(t) => endpoint_selection(endpoint@) == Some(
                EndpointSelection { identity: t.0@, kind: t.1@, confidence: t.2, basis: t.3@ },
            ),
            None => endpoint_selection(endpoint@) is None,
        },
{
    if let Some(rest) = strip_prefix_str(endpoint, "card/") {
        let mut id = chars_of("card:");
        let n = normalize_id_chars(&rest);
        append(&mut id, &n);
        return Some(
            (id, chars_of("local_card"), SourceIdentityConfidence::Medium, chars_of("local_transport_card")),
        );
    }
    if let Some(rest) = strip_prefix_str(endpoint, "volume/") {
        let mut id = chars_of("volume:");
        let n = normalize_id_chars(&rest);
        append(&mut id, &n);
        return Some(
            (
                id,
                chars_of("local_volume"),
                SourceIdentityConfidence::Medium,
                chars_of("local_transport_volume"),
            ),
        );
    }
    if let Some(rest) = strip_prefix_str(endpoint, "fallback/") {
        let mut id = chars_of("local:");
        let n = normalize_id_chars(&rest);
        append(&mut id, &n);
        return Some(
            (
                id,
                chars_of("local_volume"),
                SourceIdentityConfidence::Fallback,
                chars_of("local_transport_fallback"),
            ),
        );
    }
    if let Some(rest) = strip_prefix_str(endpoint, "source/") {
        let n = normalize_id_chars(&rest);
        return Some(
            (
                n,
                chars_of("local_volume"),
                SourceIdentityConfidence::Medium,
                chars_of("local_transport_source"),
            ),
        );
    }
    None
}

fn local_transport_identity(request: &SourceIdentityRequest, local: NetworkSourceEvidence) -> (r:
    Result<DetectedSourceIdentity, SourceIdentityError>)
    ensures
        outcome_view(r) == local_transport_outcome(*request, local@),
{
    let share = chars_of(local.share_or_gateway_path.as_str());
    let endpoint = trim_both_char(&share, '/');
    match select_endpoint(&endpoint) {
        None => {
            let mut m: Vec<char> = Vec::new();
            append_str(
                &mut m,
                "qnc+local endpoint must start with card/, volume/, source/ or fallback/: ",
            );
            append_str(&mut m, request.location.as_str());
            Err(SourceIdentityError::InvalidLocation(string_of(&m)))
        },
        Some((identity, kind, confidence, basis)) => {
            let display = match &request.display_name_hint {
                Some(d) => d.clone(),
                None => {
                    let d = replace_char_chars(&endpoint, '/', ' ');
                    string_of(&d)
                },
            };
            let net_json = render_network_evidence(&local);
            let transport = chars_of(local.transport_uri.as_str());
            let json = render_envelope(
                request.location.as_str(),
                &kind,
                &transport,
                &basis,
                confidence.as_str(),
                request.host_os.as_str(),
                request.host_arch.as_str(),
                &None,
                &Some(net_json),
            );
            Ok(
                DetectedSourceIdentity {
                    record: SourceIdentityRecord {
                        source_identity: string_of(&identity),
                        source_kind: string_of(&kind),
                        display_name: display,
                        transport_uri: local.transport_uri,
                        identity_evidence_json: string_of(&json),
                        fallback_fingerprint: None,
                        seen_at: request.seen_at.clone(),
                    },
                    confidence,
                    identity_basis: string_of(&basis),
                },
            )
        },
    }
}

/// The fallback fingerprint of the evidence, when it has signature material:
/// 24 lowercase hex digits.
pub fn root_signature_fingerprint(evidence: &LocalSourceEvidence) -> (r: Option<String>)
    ensures
        opt_view(&r) == root_signature(*evidence),
        r matches Some(h) ==> lower_hex_text(h@, 24),
{
    if evidence.volume_label.is_some() || evidence.top_level_entries.len() > 0
        || evidence.camera_layout.len() > 0 {
        let payload = render_signature_payload(evidence);
        let text = string_of(&payload);
        let bytes = text.as_str().as_bytes();
        let hex = digest_prefix_hex(bytes, 12);
        Some(string_of(&hex))
    } else {
        None
    }
}

fn prefixed(prefix: &str, rest: &[char]) -> (r: Vec<char>)
    ensures
        r@ == prefix@ + rest@,
{
    let mut v = chars_of(prefix);
    append(&mut v, rest);
    v
}

fn local_selection_of(ev: &LocalSourceEvidence, sig: &Option<String>) -> (r: Option<
    (Vec<char>, SourceIdentityConfidence, Vec<char>, Option<String>, Vec<char>),
>)
    requires
        opt_view(sig) == root_signature(*ev),
    ensures
        match r {
            Some(t) => local_selection(*ev) == Some(
                LocalSelection {
                    identity: t.0@,
                    confidence: t.1,
                    basis: t.2@,
                    fallback: opt_view(&t.3),
                    generated_uri: t.4@,
                },
            ),
            None => local_selection(*ev) is None,
        },
{
    if let Some(id) = clean_optional(&ev.marker_source_identity) {
        let idc = chars_of(id.as_str());
        let n = normalize_id_chars(&idc);
        let uri = prefixed("qnc+local://localhost/source/", &n);
        return Some(
            (idc, SourceIdentityConfidence::Strong, chars_of("marker_source_identity"), copy_opt(sig), uri),
        );
    }
    if let Some(serial) = clean_optional(&ev.media_serial) {
        let sc = chars_of(serial.as_str());
        let n = normalize_id_chars(&sc);
        let id = prefixed("card:", &n);
        let uri = prefixed("qnc+local://localhost/card/", &n);
        return Some(
            (id, SourceIdentityConfidence::Strong, chars_of("media_serial"), copy_opt(sig), uri),
        );
    }
    if let Some(uuid) = clean_optional(&ev.volume_uuid) {
        let uc = chars_of(uuid.as_str());
        let n = normalize_id_chars(&uc);
        let id = prefixed("volume:", &n);
        let uri = prefixed("qnc+local://localhost/volume/", &n);
        return Some(
            (id, SourceIdentityConfidence::Medium, chars_of("volume_uuid"), copy_opt(sig), uri),
        );
    }
    match sig {
        Some(f) => {
            let fc = chars_of(f.as_str());
            let id = prefixed("local:", &fc);
            let uri = prefixed("qnc+local://localhost/fallback/", &fc);
            Some(
                (id, SourceIdentityConfidence::Fallback, chars_of("root_signature"), Some(f.clone()), uri),
            )
        },
        None => None,
    }
}

fn local_kind_of(ev: &LocalSourceEvidence) -> (r: Vec<char>)
    ensures
        r@ == local_kind(*ev),
{
    match &ev.marker_source_kind {
        Some(k) => chars_of(k.as_str()),
        None => if ev.camera_layout.len() > 0 || ev.media_serial.is_some() {
            chars_of("local_card")
        } else {
            chars_of("local_volume")
        },
    }
}

fn local_display_name_of(request: &SourceIdentityRequest, ev: &LocalSourceEvidence) -> (r: String)
    ensures
        r@ == local_display_name(*request, *ev),
{
    match &request.display_name_hint {
        Some(d) => d.clone(),
        None => match &ev.marker_display_name {
            Some(d) => d.clone(),
            None => match &ev.volume_label {
                Some(d) => d.clone(),
                None => {
                    let path = trim_str(request.location.as_str());
                    let d = display_name_chars(&path);
                    string_of(&d)
                },
            },
        },
    }
}

fn local_transport_of(ev: &LocalSourceEvidence, generated: Vec<char>) -> (r: Vec<char>)
    ensures
        r@ == local_transport(*ev, generated@),
{
    match clean_optional(&ev.marker_transport_uri) {
        Some(u) => {
            let uc = chars_of(u.as_str());
            if is_qnc_transport_uri(&uc) {
                uc
            } else {
                generated
            }
        },
        None => generated,
    }
}

/// The identity of a local medium from the evidence its provider read. Its
/// fallback fingerprint, when there is one, is 24 lowercase hex digits.
pub fn local_identity_from_evidence(
    request: &SourceIdentityRequest,
    evidence: &LocalSourceEvidence,
) -> (r: Result<DetectedSourceIdentity, SourceIdentityError>)
    ensures
        outcome_view(r) == local_outcome(*request, *evidence),
        r matches Ok(d) ==> (d.record.fallback_fingerprint matches Some(h) ==> lower_hex_text(
            h@,
            24,
        )),
{
    let sig = root_signature_fingerprint(evidence);
    match local_selection_of(evidence, &sig) {
        None => Err(
            SourceIdentityError::InsufficientLocalEvidence(
                "missing marker, serial, volume UUID and root signature".to_owned(),
            ),
        ),
        Some((identity, confidence, basis, fallback, generated)) => {
            let kind = local_kind_of(evidence);
            let transport = local_transport_of(evidence, generated);
            let display = local_display_name_of(request, evidence);
            let local_json = render_local_evidence(evidence);
            let json = render_envelope(
                request.location.as_str(),
                &kind,
                &transport,
                &basis,
                confidence.as_str(),
                request.host_os.as_str(),
                request.host_arch.as_str(),
                &Some(local_json),
                &None,
            );
            Ok(
                DetectedSourceIdentity {
                    record: SourceIdentityRecord {
                        source_identity: string_of(&identity),
                        source_kind: string_of(&kind),
                        display_name: display,
                        transport_uri: string_of(&transport),
                        identity_evidence_json: string_of(&json),
                        fallback_fingerprint: fallback,
                        seen_at: request.seen_at.clone(),
                    },
                    confidence,
                    identity_basis: string_of(&basis),
                },
            )
        },
    }
}

/// Detects the identity of the source at `request.location`. Transport URIs
/// and UNC paths name their source themselves; for a local access path the
/// provider reads the medium at the trimmed location, and the identity is
/// the one `local_identity_from_evidence` gives for what it read.
pub fn detect_source_identity_with_provider<P: SourceIdentityEvidenceProvider>(
    request: SourceIdentityRequest,
    provider: &P,
) -> (r: Result<DetectedSourceIdentity, SourceIdentityError>)
    ensures
        transport_outcome(request) matches Some(o) ==> outcome_view(r) == o,
        transport_outcome(request) is None ==> exists|ev: LocalSourceEvidence|
            provider.reads(trim(request.location@), ev) && outcome_view(r) == #[trigger] local_outcome(
                request,
                ev,
            ),
{
    let loc = trim_str(request.location.as_str());
    if loc.len() == 0 {
        return Err(SourceIdentityError::EmptyLocation);
    }
    if starts_with_str(&loc, "file:") {
        return Err(
            SourceIdentityError::InvalidLocation(
                "non-QNC URI scheme cannot be used as a stable transport path".to_owned(),
            ),
        );
    }
    match parse_intranet_location(&loc) {
        Err(e) => {
            return Err(e);
        },
        Ok(Some(n)) => {
            return Ok(network_identity(&request, "intranet_gateway", n));
        },
        Ok(None) => {},
    }
    match parse_lan_location(&loc) {
        Err(e) => {
            return Err(e);
        },
        Ok(Some(n)) => {
            return Ok(network_identity(&request, "lan_share", n));
        },
        Ok(None) => {},
    }
    match parse_local_transport_location(&loc) {
        Err(e) => {
            return Err(e);
        },
        Ok(Some(n)) => {
            return local_transport_identity(&request, n);
        },
        Ok(None) => {},
    }
    let path = string_of(&loc);
    let evidence = provider.local_evidence(path.as_str());
    let r = local_identity_from_evidence(&request, &evidence);
    assert(outcome_view(r) == local_outcome(request, evidence));
    r
}

// ---------------------------------------------------------------------------
// Laws
// ---------------------------------------------------------------------------

/// A local medium's identity rests on its evidence alone: whatever the
/// operator location or display name, the same evidence gives the same
/// identity, kind, transport URI, confidence, basis and fallback
/// fingerprint (so the access path a card is mounted at never enters its
/// identity), and is refused for the same evidence.
pub proof fn lemma_local_identity_ignores_location(
    a: SourceIdentityRequest,
    b: SourceIdentityRequest,
    ev: LocalSourceEvidence,
)
    ensures
        (local_outcome(a, ev) is Ok) == (local_outcome(b, ev) is Ok),
        local_outcome(a, ev) matches Ok(x) ==> local_outcome(b, ev) matches Ok(y) && x.source_identity
            == y.source_identity && x.source_kind == y.source_kind && x.transport_uri
            == y.transport_uri && x.confidence == y.confidence && x.identity_basis
            == y.identity_basis && x.fallback_fingerprint == y.fallback_fingerprint,
{
}

/// Without a marker identity, a card's serial decides its identity: two
/// media with the same serial (after trimming) have the same identity,
/// confidence and basis whatever their volume labels, volume UUIDs, entries
/// or layouts.
pub proof fn lemma_card_identity_ignores_volume_label(
    a: SourceIdentityRequest,
    b: SourceIdentityRequest,
    ev1: LocalSourceEvidence,
    ev2: LocalSourceEvidence,
)
    requires
        clean_opt(opt_view(&ev1.marker_source_identity)) is None,
        clean_opt(opt_view(&ev2.marker_source_identity)) is None,
        clean_opt(opt_view(&ev1.media_serial)) is Some,
        clean_opt(opt_view(&ev1.media_serial)) == clean_opt(opt_view(&ev2.media_serial)),
    ensures
        local_outcome(a, ev1) matches Ok(x) && local_outcome(b, ev2) matches Ok(y)
            && x.source_identity == y.source_identity && x.confidence == y.confidence
            && x.identity_basis == y.identity_basis,
{
}

/// A qnc+local endpoint that names a card, volume, fallback or source gives
/// an identity, which does not depend on the display name chosen by the
/// operator.
pub proof fn lemma_local_transport_identity_ignores_display_name(
    a: SourceIdentityRequest,
    b: SourceIdentityRequest,
    n: NetworkView,
)
    ensures
        (local_transport_outcome(a, n) is Ok) == (local_transport_outcome(b, n) is Ok),
        local_transport_outcome(a, n) matches Ok(x) ==> local_transport_outcome(b, n) matches Ok(y)
            && x.source_identity == y.source_identity && x.transport_uri == y.transport_uri
            && x.confidence == y.confidence,
{
}

/// The kind of a local medium: the kind its marker file writes, else a card
/// when it has a camera layout or a card serial, else a volume. The evidence
/// JSON records the same kind.
pub proof fn lemma_local_kind_from_evidence(req: SourceIdentityRequest, ev: LocalSourceEvidence)
    ensures
        local_outcome(req, ev) matches Ok(d) ==> {
            &&& ev.marker_source_kind matches Some(k) ==> d.source_kind == k@
            &&& ev.marker_source_kind is None && (ev.camera_layout@.len() > 0
                || ev.media_serial is Some) ==> d.source_kind == "local_card"@
            &&& ev.marker_source_kind is None && ev.camera_layout@.len() == 0
                && ev.media_serial is None ==> d.source_kind == "local_volume"@
            &&& exists|f: EnvelopeFields|
                f.source_kind == d.source_kind && d.identity_evidence_json == envelope_json(f)
        },
{
    if local_outcome(req, ev) is Ok {
        let sel = local_selection(ev)->Some_0;
        let kind = local_kind(ev);
        let transport = local_transport(ev, sel.generated_uri);
        let f = EnvelopeFields {
            input_location: req.location@,
            source_kind: kind,
            transport_uri: transport,
            identity_basis: sel.basis,
            confidence: confidence_text(sel.confidence),
            os: req.host_os@,
            arch: req.host_arch@,
            local: Some(local_evidence_json(ev)),
            network: None,
        };
        assert(local_outcome(req, ev)->Ok_0.identity_evidence_json == envelope_json(f));
    }
}

/// Which evidence a local identity rests on, strongest first: the marker
/// file's identity (strong), else the card serial (`card:<serial>`,
/// strong), else the volume UUID (`volume:<uuid>`, medium), else the root
/// signature (`local:<fingerprint>`, fallback); with none of them the
/// medium is refused.
pub proof fn lemma_local_identity_precedence(req: SourceIdentityRequest, ev: LocalSourceEvidence)
    ensures
        clean_opt(opt_view(&ev.marker_source_identity)) matches Some(id) ==> (local_outcome(
            req,
            ev,
        ) matches Ok(d) && d.source_identity == id && d.confidence
            == SourceIdentityConfidence::Strong && d.identity_basis == "marker_source_identity"@),
        clean_opt(opt_view(&ev.marker_source_identity)) is None ==> (clean_opt(
            opt_view(&ev.media_serial),
        ) matches Some(serial) ==> (local_outcome(req, ev) matches Ok(d) && d.source_identity
            == "card:"@ + normalize_id(serial) && d.confidence == SourceIdentityConfidence::Strong
            && d.identity_basis == "media_serial"@)),
        clean_opt(opt_view(&ev.marker_source_identity)) is None && clean_opt(
            opt_view(&ev.media_serial),
        ) is None ==> (clean_opt(opt_view(&ev.volume_uuid)) matches Some(uuid) ==> (
        local_outcome(req, ev) matches Ok(d) && d.source_identity == "volume:"@ + normalize_id(
            uuid,
        ) && d.confidence == SourceIdentityConfidence::Medium && d.identity_basis
            == "volume_uuid"@)),
        clean_opt(opt_view(&ev.marker_source_identity)) is None && clean_opt(
            opt_view(&ev.media_serial),
        ) is None && clean_opt(opt_view(&ev.volume_uuid)) is None ==> (root_signature(ev) matches Some(
            f,
        ) ==> (local_outcome(req, ev) matches Ok(d) && d.source_identity == "local:"@ + f
            && d.confidence == SourceIdentityConfidence::Fallback && d.identity_basis
            == "root_signature"@ && d.fallback_fingerprint == Some(f))),
        clean_opt(opt_view(&ev.marker_source_identity)) is None && clean_opt(
            opt_view(&ev.media_serial),
        ) is None && clean_opt(opt_view(&ev.volume_uuid)) is None && root_signature(ev) is None
            ==> local_outcome(req, ev) is Err,
{
}

/// What each `qnc+local://localhost/<endpoint>` names: a `card/` endpoint a
/// card, a `volume/` endpoint a volume, a `fallback/` endpoint a medium known
/// by its root signature, a `source/` endpoint a source by its own
/// identity; every other endpoint is refused. Only `card/` endpoints name
/// cards.
pub proof fn lemma_local_endpoint_kinds(req: SourceIdentityRequest, n: NetworkView)
    ensures
        ({
            let e = trim_char(n.share_or_gateway_path, '/');
            &&& starts_with(e, "card/"@) ==> (local_transport_outcome(req, n) matches Ok(d)
                && d.source_kind == "local_card"@ && d.identity_basis == "local_transport_card"@
                && d.source_identity == "card:"@ + normalize_id(e.skip(5)) && d.confidence
                == SourceIdentityConfidence::Medium)
            &&& starts_with(e, "volume/"@) ==> (local_transport_outcome(req, n) matches Ok(d)
                && d.source_kind == "local_volume"@ && d.identity_basis
                == "local_transport_volume"@ && d.source_identity == "volume:"@ + normalize_id(
                e.skip(7),
            ) && d.confidence == SourceIdentityConfidence::Medium)
            &&& starts_with(e, "fallback/"@) ==> (local_transport_outcome(req, n) matches Ok(d)
                && d.source_kind == "local_volume"@ && d.identity_basis
                == "local_transport_fallback"@ && d.source_identity == "local:"@ + normalize_id(
                e.skip(9),
            ) && d.confidence == SourceIdentityConfidence::Fallback)
            &&& starts_with(e, "source/"@) ==> (local_transport_outcome(req, n) matches Ok(d)
                && d.source_kind == "local_volume"@ && d.identity_basis
                == "local_transport_source"@ && d.source_identity == normalize_id(e.skip(7))
                && d.confidence == SourceIdentityConfidence::Medium)
            &&& !starts_with(e, "card/"@) && !starts_with(e, "volume/"@) && !starts_with(
                e,
                "fallback/"@,
            ) && !starts_with(e, "source/"@) ==> local_transport_outcome(req, n) is Err
            &&& (local_transport_outcome(req, n) is Ok && local_transport_outcome(req, n)->Ok_0.source_kind
                == "local_card"@) ==> starts_with(e, "card/"@)
        }),
{
    reveal_strlit("card/");
    reveal_strlit("volume/");
    reveal_strlit("fallback/");
    reveal_strlit("source/");
    reveal_strlit("local_card");
    reveal_strlit("local_volume");
    let e = trim_char(n.share_or_gateway_path, '/');
    if starts_with(e, "card/"@) {
        assert(e.take(5)[0] == 'c');
        assert(e[0] == 'c');
    }
    if starts_with(e, "volume/"@) {
        assert(e.take(7)[0] == 'v');
        assert(e[0] == 'v');
    }
    if starts_with(e, "fallback/"@) {
        assert(e.take(9)[0] == 'f');
        assert(e[0] == 'f');
    }
    if starts_with(e, "source/"@) {
        assert(e.take(7)[0] == 's');
        assert(e[0] == 's');
    }
    assert("local_card"@ != "local_volume"@) by {
        assert("local_card"@[6] != "local_volume"@[6]);
    }
}

/// The identity part of a text that is already trimmed.
pub open spec fn id_core(u: Seq<char>) -> Seq<char> {
    trim_char(collapse_underscores(u.map_values(|c: char| id_char(c))), '_')
}

proof fn lemma_core_push(u: Seq<char>, c: char)
    requires
        id_char(c) == '_',
    ensures
        id_core(u.push(c)) == id_core(u),
{
    let m = u.map_values(|c: char| id_char(c));
    assert(u.push(c).map_values(|c: char| id_char(c)) =~= m.push('_'));
    assert(m.push('_').drop_last() =~= m);
    let r = collapse_underscores(m);
    assert(collapse_underscores(m.push('_')) == if r.len() > 0 && r.last() == '_' {
        r
    } else {
        r.push('_')
    });
    if !(r.len() > 0 && r.last() == '_') {
        crate::text::lemma_trim_by_push(r, eq_pred('_'), '_');
    }
}

proof fn lemma_core_append(u: Seq<char>, t: Seq<char>)
    requires
        forall|i: int| 0 <= i < t.len() ==> id_char(#[trigger] t[i]) == '_',
    ensures
        id_core(u + t) == id_core(u),
    decreases t.len(),
{
    if t.len() > 0 {
        assert(u + t =~= (u + t.drop_last()).push(t.last()));
        assert forall|i: int| 0 <= i < t.drop_last().len() implies id_char(
            #[trigger] t.drop_last()[i],
        ) == '_' by {
            assert(t.drop_last()[i] == t[i]);
        }
        lemma_core_append(u, t.drop_last());
        lemma_core_push(u + t.drop_last(), t.last());
    } else {
        assert(u + t =~= u);
    }
}

/// A character that an identity part turns into `_` (white space, `/` and
/// every other character outside letters, digits, `-`, `.`) changes
/// nothing when it ends the text.
proof fn lemma_normalize_push(s: Seq<char>, c: char)
    requires
        id_char(c) == '_',
    ensures
        normalize_id(s.push(c)) == normalize_id(s),
{
    assert(normalize_id(s) == id_core(trim(s)));
    assert(normalize_id(s.push(c)) == id_core(trim(s.push(c))));
    if is_ws(c) {
        crate::text::lemma_trim_by_push(s, ws_pred(), c);
    } else {
        crate::text::lemma_lead_push(s, ws_pred(), c);
        crate::text::lemma_lead_stop(s, ws_pred());
        let a = lead_by(s, ws_pred());
        if a < s.len() {
            let t = trim_start_by(s, ws_pred());
            assert(trim_start_by(s.push(c), ws_pred()) =~= t.push(c));
            assert(t.push(c).last() == c);
            assert(trail_by(t.push(c), ws_pred()) == 0);
            assert(trim(s.push(c)) =~= t.push(c));
            crate::text::lemma_trail_all(t, ws_pred());
            let v = trim(s);
            let w = t.skip(v.len() as int);
            assert(t.push(c) =~= v + w.push(c));
            assert forall|i: int| 0 <= i < w.push(c).len() implies id_char(
                #[trigger] w.push(c)[i],
            ) == '_' by {
                if i < w.len() {
                    assert(w.push(c)[i] == t[v.len() + i]);
                    assert(ws_pred()(t[v.len() + i]));
                }
            }
            lemma_core_append(v, w.push(c));
        } else {
            assert(trim_start_by(s.push(c), ws_pred()) =~= seq![c]);
            assert(seq![c].last() == c);
            assert(trail_by(seq![c], ws_pred()) == 0);
            assert(trim(s.push(c)) =~= seq![c]);
            assert(trim_start_by(s, ws_pred()) =~= Seq::<char>::empty());
            assert(trim(s) =~= Seq::<char>::empty());
            assert(seq![c] =~= Seq::<char>::empty().push(c));
            lemma_core_push(Seq::<char>::empty(), c);
        }
    }
}

proof fn lemma_normalize_append(s: Seq<char>, t: Seq<char>)
    requires
        forall|i: int| 0 <= i < t.len() ==> id_char(#[trigger] t[i]) == '_',
    ensures
        normalize_id(s + t) == normalize_id(s),
    decreases t.len(),
{
    if t.len() > 0 {
        assert(s + t =~= (s + t.drop_last()).push(t.last()));
        assert forall|i: int| 0 <= i < t.drop_last().len() implies id_char(
            #[trigger] t.drop_last()[i],
        ) == '_' by {
            assert(t.drop_last()[i] == t[i]);
        }
        lemma_normalize_append(s, t.drop_last());
        lemma_normalize_push(s + t.drop_last(), t.last());
    } else {
        assert(s + t =~= s);
    }
}

/// What a `qnc+local://localhost/card/<serial>` location keeps of a
/// serial: the serial without trailing white space, then without trailing
/// `/` characters.
pub open spec fn uri_serial(serial: Seq<char>) -> Seq<char> {
    trim_end_by(trim_end_by(serial, ws_pred()), eq_pred('/'))
}

proof fn lemma_kept_serial(serial: Seq<char>)
    requires
        uri_serial(serial).len() > 0,
    ensures
        normalize_id(uri_serial(serial)) == normalize_id(serial),
        trail_by(serial, ws_pred()) < serial.len(),
        trim_end_by(serial, ws_pred()).len() > 0,
        !is_ws(trim_end_by(serial, ws_pred()).last()),
        trail_by(trim_end_by(serial, ws_pred()), eq_pred('/')) < trim_end_by(serial, ws_pred()).len(),
        uri_serial(serial).last() != '/',
{
    let r = trim_end_by(serial, ws_pred());
    let x = uri_serial(serial);
    crate::text::lemma_trail_all(serial, ws_pred());
    crate::text::lemma_trail_stop(serial, ws_pred());
    crate::text::lemma_trail_all(r, eq_pred('/'));
    crate::text::lemma_trail_stop(r, eq_pred('/'));
    let tail = serial.skip(x.len() as int);
    assert(serial =~= x + tail);
    assert forall|i: int| 0 <= i < tail.len() implies id_char(#[trigger] tail[i]) == '_' by {
        let k = x.len() + i;
        assert(tail[i] == serial[k]);
        if k < r.len() {
            assert(r[k] == serial[k]);
            assert(eq_pred('/')(r[k]));
        } else {
            assert(ws_pred()(serial[k]));
        }
    }
    lemma_normalize_append(x, tail);
    assert(r.last() == serial[serial.len() - 1 - trail_by(serial, ws_pred())]);
    assert(x.last() == r[r.len() - 1 - trail_by(r, eq_pred('/'))]);
}

proof fn lemma_card_location_trim(serial: Seq<char>)
    requires
        trail_by(serial, ws_pred()) < serial.len(),
    ensures
        trim("qnc+local://localhost/card/"@ + serial) == "qnc+local://localhost/card/"@
            + trim_end_by(serial, ws_pred()),
{
    reveal_strlit("qnc+local://localhost/card/");
    let p = "qnc+local://localhost/card/"@;
    let full = p + serial;
    assert(full[0] == 'q');
    assert(lead_by(full, ws_pred()) == 0);
    assert(trim_start_by(full, ws_pred()) =~= full);
    crate::text::lemma_trail_append(p, serial, ws_pred());
    assert(trim(full) =~= p + trim_end_by(serial, ws_pred()));
}

proof fn lemma_card_location_scheme(r: Seq<char>)
    ensures
        !starts_with("qnc+local://localhost/card/"@ + r, "file:"@),
        parse_intranet("qnc+local://localhost/card/"@ + r) == Ok::<Option<NetworkView>, IdentityErrorView>(None),
        parse_lan("qnc+local://localhost/card/"@ + r) == Ok::<Option<NetworkView>, IdentityErrorView>(None),
        starts_with("qnc+local://localhost/card/"@ + r, "qnc+local://"@),
{
    reveal_strlit("qnc+local://localhost/card/");
    reveal_strlit("qnc+local://");
    reveal_strlit("qnc+intranet://");
    reveal_strlit("qnc://");
    reveal_strlit("qnc+lan://");
    reveal_strlit("file:");
    let loc = "qnc+local://localhost/card/"@ + r;
    assert(loc[0] == 'q' && loc[3] == '+' && loc[4] == 'l' && loc[5] == 'o');
    assert(loc.take(5)[0] != "file:"@[0]);
    assert(loc.take(15)[4] != "qnc+intranet://"@[4]);
    assert(loc.take(6)[3] != "qnc://"@[3]);
    assert(loc.take(10)[5] != "qnc+lan://"@[5]);
    assert(loc.take(2)[0] != seq!['\\', '\\'][0]);
    assert(loc.take(2)[0] != seq!['/', '/'][0]);
    assert(loc.take(12) =~= "qnc+local://"@);
}

proof fn lemma_card_location_host(r: Seq<char>)
    requires
        r.len() > 0,
        !is_ws(r.last()),
    ensures
        host_path(("qnc+local://localhost/card/"@ + r).skip(12)) == Some(
            (
                ("qnc+local://localhost/card/"@ + r).skip(12).take(9),
                seq!['/'] + trim_char("qnc+local://localhost/card/"@.skip(22) + r, '/'),
            ),
        ),
{
    reveal_strlit("qnc+local://localhost/card/");
    let p = "qnc+local://localhost/card/"@;
    let rest = (p + r).skip(12);
    assert(rest =~= p.skip(12) + r);
    assert(rest[0] == 'l');
    assert(lead_by(rest, ws_pred()) == 0);
    assert(rest.last() == r.last());
    assert(trail_by(rest, ws_pred()) == 0);
    assert(trim(rest) =~= rest);
    assert forall|j: int| 0 <= j < 9 implies rest[j] != '/' by {
        assert(rest[j] == p[12 + j]);
    }
    assert(rest[9] == '/');
    crate::text::lemma_index_of_found(rest, '/', 9);
    let h = rest.take(9);
    assert(rest.skip(10) =~= p.skip(22) + r);
    assert(h[0] == 'l' && h.last() == 't');
    assert(lead_by(h, ws_pred()) == 0);
    assert(trail_by(h, ws_pred()) == 0);
    assert(trim(h) =~= h);
}

proof fn lemma_card_location_share(r: Seq<char>, x: Seq<char>)
    requires
        r.len() > 0,
        x == trim_end_by(r, eq_pred('/')),
        trail_by(r, eq_pred('/')) < r.len(),
        x.last() != '/',
    ensures
        trim_start_by(
            seq!['/'] + trim_char("qnc+local://localhost/card/"@.skip(22) + r, '/'),
            eq_pred('/'),
        ) == "qnc+local://localhost/card/"@.skip(22) + x,
        trim_char("qnc+local://localhost/card/"@.skip(22) + x, '/') == "qnc+local://localhost/card/"@.skip(22) + x,
{
    reveal_strlit("qnc+local://localhost/card/");
    let cs = "qnc+local://localhost/card/"@.skip(22);
    assert((cs + r)[0] == 'c');
    assert(lead_by(cs + r, eq_pred('/')) == 0);
    crate::text::lemma_trail_append(cs, r, eq_pred('/'));
    assert(trim_start_by(cs + r, eq_pred('/')) =~= cs + r);
    assert(trim_end_by(cs + r, eq_pred('/')) =~= cs + x);
    assert(trim_char(cs + r, '/') =~= cs + x);
    let path = seq!['/'] + (cs + x);
    assert(path.drop_first() =~= cs + x);
    assert((cs + x)[0] == 'c');
    assert(lead_by(cs + x, eq_pred('/')) == 0);
    assert(lead_by(path, eq_pred('/')) == 1);
    assert(trim_start_by(path, eq_pred('/')) =~= cs + x);
    let share = cs + x;
    assert(share.last() == x.last());
    assert(trail_by(share, eq_pred('/')) == 0);
    assert(trim_start_by(share, eq_pred('/')) =~= share);
    assert(trim_char(share, '/') =~= share);
}

proof fn lemma_card_endpoint_selection(x: Seq<char>)
    ensures
        endpoint_selection("qnc+local://localhost/card/"@.skip(22) + x) matches Some(sel)
            && sel.identity == "card:"@ + normalize_id(x),
{
    reveal_strlit("qnc+local://localhost/card/");
    reveal_strlit("card/");
    let e = "qnc+local://localhost/card/"@.skip(22) + x;
    assert(e.take(5) =~= "card/"@);
    assert(e.skip(5) =~= x);
}

/// A card named by its serial in a `qnc+local://localhost/card/<serial>`
/// location has the identity `card:<serial>` that the same serial gives
/// when it is read from the attached medium (with no marker identity).
/// Left out are serials of which the location keeps nothing (only `/` and
/// white space at their end), for which it names no card.
pub proof fn lemma_card_uri_and_medium_share_identity(
    uri_request: SourceIdentityRequest,
    path_request: SourceIdentityRequest,
    ev: LocalSourceEvidence,
    serial: Seq<char>,
)
    requires
        uri_request.location@ == "qnc+local://localhost/card/"@ + serial,
        clean_opt(opt_view(&ev.marker_source_identity)) is None,
        opt_view(&ev.media_serial) == Some(serial),
        trim(serial).len() > 0,
        uri_serial(serial).len() > 0,
    ensures
        transport_outcome(uri_request) matches Some(Ok(x)) && local_outcome(path_request, ev) matches Ok(
            y,
        ) && x.source_identity == y.source_identity && y.source_identity == "card:"@
            + normalize_id(serial),
{
    let p = "qnc+local://localhost/card/"@;
    let r = trim_end_by(serial, ws_pred());
    let x = uri_serial(serial);
    lemma_kept_serial(serial);
    crate::text::lemma_trim_by_idem(serial, ws_pred());
    assert(normalize_id(trim(serial)) == normalize_id(serial));
    lemma_card_location_trim(serial);
    let loc = trim(uri_request.location@);
    assert(loc == p + r);
    lemma_card_location_scheme(r);
    lemma_card_location_host(r);
    lemma_card_location_share(r, x);
    lemma_card_endpoint_selection(x);
    let n = parse_local_transport(loc)->Ok_0->Some_0;
    assert(transport_outcome(uri_request) == Some(local_transport_outcome(uri_request, n)));
    assert(trim_char(n.share_or_gateway_path, '/') == p.skip(22) + x);
}

/// A character an identity part may hold.
pub open spec fn is_id_part_char(c: char) -> bool {
    crate::text::is_ascii_lower(c) || crate::text::is_ascii_digit(c) || c == '-' || c == '_' || c
        == '.'
}

/// Every normalized identity part is made of lowercase ASCII letters,
/// digits, `-`, `_` and `.`, has no `_` at either end and no two adjacent
/// `_`.
pub proof fn lemma_normalize_id_shape(s: Seq<char>)
    ensures
        forall|i: int|
            0 <= i < normalize_id(s).len() ==> is_id_part_char(#[trigger] normalize_id(s)[i]),
        normalize_id(s).len() > 0 ==> normalize_id(s)[0] != '_' && normalize_id(s).last() != '_',
        forall|i: int|
            0 <= i < normalize_id(s).len() - 1 ==> !(#[trigger] normalize_id(s)[i] == '_'
                && normalize_id(s)[i + 1] == '_'),
{
    let m = trim(s).map_values(|c: char| id_char(c));
    assert forall|i: int| 0 <= i < m.len() implies is_id_part_char(#[trigger] m[i]) by {
        let c = trim(s)[i];
        assert(m[i] == id_char(c));
    }
    let q = |c: char| is_id_part_char(c);
    assert forall|i: int| 0 <= i < m.len() implies q(#[trigger] m[i]) by {}
    crate::text::lemma_collapse_keeps(m, q);
    crate::text::lemma_collapse_no_double(m);
    let c = collapse_underscores(m);
    crate::text::lemma_trim_by_ends(c, eq_pred('_'));
    let n = normalize_id(s);
    let (a, b) = choose|a: int, b: int| 0 <= a <= b <= c.len() && trim_by(c, eq_pred('_')) == c.subrange(a, b);
    assert(n == c.subrange(a, b));
    assert forall|i: int| 0 <= i < n.len() implies is_id_part_char(#[trigger] n[i]) by {
        assert(n[i] == c[a + i]);
        assert(q(c[a + i]));
    }
    assert forall|i: int| 0 <= i < n.len() - 1 implies !(#[trigger] n[i] == '_' && n[i + 1] == '_') by {
        assert(n[i] == c[a + i]);
        assert(n[i + 1] == c[a + i + 1]);
    }
}

// ---------------------------------------------------------------------------
// Windows volume roots
// ---------------------------------------------------------------------------

pub open spec fn is_sep(c: char) -> bool {
    c == '\\' || c == '/'
}

/// The component of `s` up to the first separator (`\` only when
/// `verbatim`), and what follows that separator.
pub open spec fn next_component(s: Seq<char>, verbatim: bool) -> (Seq<char>, Seq<char>) {
    match first_separator(s, verbatim) {
        Some(i) => (s.take(i as int), s.skip((i + 1) as int)),
        None => (s, Seq::empty()),
    }
}

/// Index of the first separator: `\`, or also `/` when not `verbatim`.
pub open spec fn first_separator(s: Seq<char>, verbatim: bool) -> Option<nat>
    decreases s.len(),
{
    if s.len() == 0 {
        None
    } else if s[0] == '\\' || (!verbatim && s[0] == '/') {
        Some(0)
    } else {
        match first_separator(s.drop_first(), verbatim) {
            Some(i) => Some(i + 1),
            None => None,
        }
    }
}

pub open spec fn drive_root(letter: char) -> Seq<char> {
    seq![crate::text::upper_char(letter), ':', '\\']
}

pub open spec fn unc_root_text(server: Seq<char>, share: Seq<char>) -> Seq<char> {
    seq!['\\', '\\'] + server + seq!['\\'] + share + seq!['\\']
}

/// The root of the volume a Windows path is on, by its prefix: `X:\` for a
/// drive path (`X:` or verbatim `\\?\X:`), `\\server\share\` for a UNC path
/// (`\\server\share`, either separator, or verbatim `\\?\UNC\server\share`);
/// none for other paths, device paths (`\\.\`) and other verbatim paths. A
/// verbatim prefix counts only when the first eight characters hold no `/`.
pub open spec fn volume_root_of(path: Seq<char>) -> Option<Seq<char>> {
    if path.len() >= 2 && is_sep(path[0]) && is_sep(path[1]) {
        let rest = path.skip(2);
        if starts_with(path, seq!['\\', '\\', '?', '\\']) && !path.take(
            if path.len() < 8 {
                path.len() as int
            } else {
                8
            },
        ).contains('/') {
            let v = path.skip(4);
            if starts_with(v, seq!['U', 'N', 'C', '\\']) {
                let (server, after) = next_component(v.skip(4), true);
                let (share, _) = next_component(after, true);
                Some(unc_root_text(server, share))
            } else if v.len() >= 2 && crate::text::is_ascii_alpha(v[0]) && v[1] == ':' && (v.len()
                == 2 || v[2] == '\\') {
                Some(drive_root(v[0]))
            } else {
                None
            }
        } else if rest.len() >= 2 && rest[0] == '.' && is_sep(rest[1]) {
            None
        } else {
            let (server, after) = next_component(rest, false);
            let (share, _) = next_component(after, false);
            if server.len() > 0 && share.len() > 0 {
                Some(unc_root_text(server, share))
            } else {
                None
            }
        }
    } else if path.len() >= 2 && crate::text::is_ascii_alpha(path[0]) && path[1] == ':' {
        Some(drive_root(path[0]))
    } else {
        None
    }
}

proof fn lemma_first_separator_found(s: Seq<char>, verbatim: bool, i: int)
    requires
        0 <= i < s.len(),
        s[i] == '\\' || (!verbatim && s[i] == '/'),
        forall|j: int| 0 <= j < i ==> !(s[j] == '\\' || (!verbatim && s[j] == '/')),
    ensures
        first_separator(s, verbatim) == Some(i as nat),
    decreases i,
{
    if i > 0 {
        lemma_first_separator_found(s.drop_first(), verbatim, i - 1);
    }
}

proof fn lemma_first_separator_none(s: Seq<char>, verbatim: bool)
    requires
        forall|j: int| 0 <= j < s.len() ==> !(s[j] == '\\' || (!verbatim && s[j] == '/')),
    ensures
        first_separator(s, verbatim) == None::<nat>,
    decreases s.len(),
{
    if s.len() > 0 {
        lemma_first_separator_none(s.drop_first(), verbatim);
    }
}

fn split_component(s: &[char], verbatim: bool) -> (r: (Vec<char>, Vec<char>))
    ensures
        (r.0@, r.1@) == next_component(s@, verbatim),
{
    let mut i: usize = 0;
    while i < s.len()
        invariant
            i <= s@.len(),
            forall|j: int| 0 <= j < i ==> !(s@[j] == '\\' || (!verbatim && s@[j] == '/')),
        decreases s@.len() - i,
    {
        if s[i] == '\\' || (!verbatim && s[i] == '/') {
            proof {
                lemma_first_separator_found(s@, verbatim, i as int);
            }
            let head = subrange(s, 0, i);
            let n = s.len();
            let tail = subrange(s, i + 1, n);
            assert(tail@ =~= s@.skip(i + 1));
            return (head, tail);
        }
        i = i + 1;
    }
    proof {
        lemma_first_separator_none(s@, verbatim);
    }
    (copy_chars(s), Vec::new())
}

fn drive_root_chars(letter: char) -> (r: Vec<char>)
    ensures
        r@ == drive_root(letter),
{
    let mut r: Vec<char> = Vec::new();
    r.push(crate::text::upper_char_exec(letter));
    r.push(':');
    r.push('\\');
    assert(r@ =~= drive_root(letter));
    r
}

fn unc_root_chars(server: &[char], share: &[char]) -> (r: Vec<char>)
    ensures
        r@ == unc_root_text(server@, share@),
{
    let mut r: Vec<char> = Vec::new();
    r.push('\\');
    r.push('\\');
    append(&mut r, server);
    r.push('\\');
    append(&mut r, share);
    r.push('\\');
    assert(r@ =~= unc_root_text(server@, share@));
    r
}

/// What the platform reports of a volume: its serial number (0 when it has
/// none) and its label.
#[derive(Debug, Clone, PartialEq, Eq)]
pub struct VolumeInformation {
    pub serial_number: u32,
    pub label: String,
}

/// The volume UUID that stands for a Windows volume serial number.
pub open spec fn volume_serial_text(n: u32) -> Seq<char> {
    "windows-volume-serial-"@ + crate::fmt::hex_u32(n)
}

/// Every field of the evidence but the volume UUID, the volume label and
/// the notes is the same.
pub open spec fn same_but_volume(a: LocalSourceEvidence, b: LocalSourceEvidence) -> bool {
    &&& a.marker_source_identity == b.marker_source_identity
    &&& a.marker_source_kind == b.marker_source_kind
    &&& a.marker_display_name == b.marker_display_name
    &&& a.marker_transport_uri == b.marker_transport_uri
    &&& a.marker_path == b.marker_path
    &&& a.media_serial == b.media_serial
    &&& a.canonical_path == b.canonical_path
    &&& a.root_exists == b.root_exists
    &&& a.top_level_entries == b.top_level_entries
    &&& a.camera_layout == b.camera_layout
}

/// What the evidence holds after the platform was asked about the medium's
/// volume: without a volume root nothing was asked; without an answer a
/// note names the root; with one, the serial (unless it is 0) stands for
/// the volume UUID and the label (unless it is empty) for the volume label,
/// each only where the medium gave none, and a note names the root.
pub open spec fn volume_enriched(
    before: LocalSourceEvidence,
    after: LocalSourceEvidence,
    volume_root: Option<Seq<char>>,
    info: Option<VolumeInformation>,
) -> bool {
    let notes = crate::fmt::strings_view(before.provider_notes@);
    &&& same_but_volume(before, after)
    &&& match (volume_root, info) {
        (Some(root), Some(i)) => {
            &&& opt_view(&after.volume_uuid) == if before.volume_uuid is None && i.serial_number
                != 0 {
                Some(volume_serial_text(i.serial_number))
            } else {
                opt_view(&before.volume_uuid)
            }
            &&& opt_view(&after.volume_label) == if before.volume_label is None && i.label@.len()
                > 0 {
                Some(i.label@)
            } else {
                opt_view(&before.volume_label)
            }
            &&& crate::fmt::strings_view(after.provider_notes@) == notes.push(
                "windows volume root: "@ + root,
            )
        },
        _ => {
            &&& after.volume_uuid == before.volume_uuid
            &&& after.volume_label == before.volume_label
            &&& crate::fmt::strings_view(after.provider_notes@) == notes.push(
                match volume_root {
                    Some(root) => "windows volume identity unavailable: "@ + root,
                    None => "windows volume root unavailable"@,
                },
            )
        },
    }
}

/// Adds what the platform reported of the medium's volume (at
/// `volume_root`, where there is one) to the evidence.
pub fn enrich_platform_volume_identity(
    evidence: &mut LocalSourceEvidence,
    volume_root: &Option<String>,
    info: &Option<VolumeInformation>,
)
    ensures
        volume_enriched(*old(evidence), *final(evidence), opt_view(volume_root), *info),
{
    let ghost before = *evidence;
    let note = match volume_root {
        None => "windows volume root unavailable".to_owned(),
        Some(root) => match info {
            None => {
                let mut t = chars_of("windows volume identity unavailable: ");
                append_str(&mut t, root.as_str());
                string_of(&t)
            },
            Some(i) => {
                if evidence.volume_uuid.is_none() && i.serial_number != 0 {
                    let mut u = chars_of("windows-volume-serial-");
                    crate::fmt::push_hex_u32(&mut u, i.serial_number);
                    evidence.volume_uuid = Some(string_of(&u));
                }
                if evidence.volume_label.is_none() && chars_of(i.label.as_str()).len() > 0 {
                    evidence.volume_label = Some(i.label.clone());
                }
                let mut t = chars_of("windows volume root: ");
                append_str(&mut t, root.as_str());
                string_of(&t)
            },
        },
    };
    evidence.provider_notes.push(note);
    assert(crate::fmt::strings_view(evidence.provider_notes@) =~= crate::fmt::strings_view(
        before.provider_notes@,
    ).push(note@));
}

/// The root of the Windows volume a path is on.
pub fn windows_volume_root(path: &str) -> (r: Option<String>)
    ensures
        opt_view(&r) == volume_root_of(path@),
{
    let p = chars_of(path);
    let n = p.len();
    if n >= 2 && (p[0] == '\\' || p[0] == '/') && (p[1] == '\\' || p[1] == '/') {
        let rest = subrange(&p, 2, n);
        assert(rest@ =~= p@.skip(2));
        let verbatim_head = vec!['\\', '\\', '?', '\\'];
        assert(verbatim_head@ =~= seq!['\\', '\\', '?', '\\']);
        let k: usize = if n < 8 {
            n
        } else {
            8
        };
        let first = subrange(&p, 0, k);
        assert(first@ =~= p@.take(k as int));
        if crate::text::starts_with_chars(&p, &verbatim_head) && !crate::text::contains_char(
            &first,
            '/',
        ) {
            let v = subrange(&p, 4, n);
            assert(v@ =~= p@.skip(4));
            let unc_head = vec!['U', 'N', 'C', '\\'];
            assert(unc_head@ =~= seq!['U', 'N', 'C', '\\']);
            if crate::text::starts_with_chars(&v, &unc_head) {
                let after_unc = subrange(&v, 4, v.len());
                assert(after_unc@ =~= v@.skip(4));
                let (server, after) = split_component(&after_unc, true);
                let (share, _) = split_component(&after, true);
                return Some(string_of(&unc_root_chars(&server, &share)));
            }
            if v.len() >= 2 && crate::text::is_alpha_char(v[0]) && v[1] == ':' && (v.len() == 2
                || v[2] == '\\') {
                return Some(string_of(&drive_root_chars(v[0])));
            }
            return None;
        }
        if rest.len() >= 2 && rest[0] == '.' && (rest[1] == '\\' || rest[1] == '/') {
            return None;
        }
        let (server, after) = split_component(&rest, false);
        let (share, _) = split_component(&after, false);
        if server.len() > 0 && share.len() > 0 {
            Some(string_of(&unc_root_chars(&server, &share)))
        } else {
            None
        }
    } else if n >= 2 && crate::text::is_alpha_char(p[0]) && p[1] == ':' {
        Some(string_of(&drive_root_chars(p[0])))
    } else {
        None
    }
}

// ---------------------------------------------------------------------------
// Reading evidence
// ---------------------------------------------------------------------------

pub open spec fn opt_views(values: Seq<Option<String>>) -> Seq<Option<Seq<char>>> {
    values.map_values(|o: Option<String>| opt_view(&o))
}

/// The first value that is present and not blank, trimmed.
pub open spec fn first_clean(values: Seq<Option<Seq<char>>>) -> Option<Seq<char>>
    decreases values.len(),
{
    if values.len() == 0 {
        None
    } else {
        match clean_opt(values[0]) {
            Some(v) => Some(v),
            None => first_clean(values.drop_first()),
        }
    }
}

pub fn first_present(values: &Vec<Option<String>>) -> (r: Option<String>)
    ensures
        opt_view(&r) == first_clean(opt_views(values@)),
{
    let mut i: usize = 0;
    assert(opt_views(values@).skip(0) =~= opt_views(values@));
    while i < values.len()
        invariant
            i <= values@.len(),
            first_clean(opt_views(values@)) == first_clean(opt_views(values@).skip(i as int)),
        decreases values@.len() - i,
    {
        let c = clean_optional(&values[i]);
        proof {
            let rest = opt_views(values@).skip(i as int);
            assert(rest[0] == opt_view(&values@[i as int]));
            assert(rest.drop_first() =~= opt_views(values@).skip(i + 1));
        }
        if c.is_some() {
            return c;
        }
        i = i + 1;
    }
    None
}

pub open spec fn camera_markers() -> Seq<Seq<char>> {
    seq!["DCIM"@, "PRIVATE"@, "CONTENTS"@, "XDROOT"@, "AVCHD"@, "BPAV"@, "CLIP"@]
}

/// Some entry equals `marker` ignoring ASCII case.
pub open spec fn has_entry(entries: Seq<Seq<char>>, marker: Seq<char>) -> bool {
    exists|i: int| 0 <= i < entries.len() && lower(#[trigger] entries[i]) == lower(marker)
}

/// The camera folders found among the top level entries, in a fixed order.
pub open spec fn camera_layout_of(entries: Seq<Seq<char>>) -> Seq<Seq<char>> {
    camera_markers().filter(|m: Seq<char>| has_entry(entries, m))
}

fn has_entry_exec(entries: &Vec<String>, marker: &str) -> (r: bool)
    ensures
        r == has_entry(crate::fmt::strings_view(entries@), marker@),
{
    let ghost ev = crate::fmt::strings_view(entries@);
    let m = lower_chars(&chars_of(marker));
    let mut i: usize = 0;
    while i < entries.len()
        invariant
            i <= entries@.len(),
            ev == crate::fmt::strings_view(entries@),
            m@ == lower(marker@),
            forall|j: int| 0 <= j < i ==> lower(#[trigger] ev[j]) != lower(marker@),
        decreases entries@.len() - i,
    {
        let e = lower_chars(&chars_of(entries[i].as_str()));
        if crate::text::chars_eq(&e, &m) {
            assert(lower(ev[i as int]) == lower(marker@));
            return true;
        }
        i = i + 1;
    }
    false
}

pub fn detect_camera_layout(entries: &Vec<String>) -> (r: Vec<String>)
    ensures
        crate::fmt::strings_view(r@) == camera_layout_of(crate::fmt::strings_view(entries@)),
{
    let markers = ["DCIM", "PRIVATE", "CONTENTS", "XDROOT", "AVCHD", "BPAV", "CLIP"];
    let ghost mv = markers@.map_values(|s: &str| s@);
    let ghost ev = crate::fmt::strings_view(entries@);
    assert(mv =~= camera_markers());
    let mut layout: Vec<String> = Vec::new();
    let mut k: usize = 0;
    while k < 7
        invariant
            k <= 7,
            markers@.len() == 7,
            mv == markers@.map_values(|s: &str| s@),
            ev == crate::fmt::strings_view(entries@),
            crate::fmt::strings_view(layout@) == mv.take(k as int).filter(
                |m: Seq<char>| has_entry(ev, m),
            ),
        decreases 7 - k,
    {
        let ghost before = crate::fmt::strings_view(layout@);
        proof {
            assert(mv.take(k + 1).drop_last() =~= mv.take(k as int));
            assert(mv.take(k + 1).last() == markers@[k as int]@);
            reveal(Seq::filter);
        }
        if has_entry_exec(entries, markers[k]) {
            layout.push(markers[k].to_owned());
            assert(crate::fmt::strings_view(layout@) =~= before.push(markers@[k as int]@));
        }
        k = k + 1;
    }
    assert(mv.take(7) =~= mv);
    layout
}

/// The fields of a marker file that identify the medium; a field that is
/// missing or not a string is `None`.
#[derive(Debug, Clone, PartialEq, Eq)]
pub struct MarkerFields {
    pub source_identity: Option<String>,
    pub source_kind: Option<String>,
    pub display_name: Option<String>,
    pub transport_uri: Option<String>,
    pub media_serial: Option<String>,
    pub card_serial: Option<String>,
    pub device_serial: Option<String>,
    pub serial: Option<String>,
    pub volume_uuid: Option<String>,
    pub filesystem_uuid: Option<String>,
    pub volume_label: Option<String>,
}

/// The evidence after the marker file at `marker_path` was read: its path,
/// identity, kind, display name and transport URI and its volume label as
/// they stand, the first present serial among the media, card, device and
/// plain serial fields, and the first present UUID among the volume and
/// filesystem UUID fields (trimmed). What the medium's root showed stays.
pub open spec fn marker_recorded(
    before: LocalSourceEvidence,
    after: LocalSourceEvidence,
    marker_path: Seq<char>,
    m: MarkerFields,
) -> bool {
    &&& opt_view(&after.marker_path) == Some(marker_path)
    &&& after.marker_source_identity == m.source_identity
    &&& after.marker_source_kind == m.source_kind
    &&& after.marker_display_name == m.display_name
    &&& after.marker_transport_uri == m.transport_uri
    &&& opt_view(&after.media_serial) == first_clean(
        opt_views(seq![m.media_serial, m.card_serial, m.device_serial, m.serial]),
    )
    &&& opt_view(&after.volume_uuid) == first_clean(
        opt_views(seq![m.volume_uuid, m.filesystem_uuid]),
    )
    &&& after.volume_label == m.volume_label
    &&& after.canonical_path == before.canonical_path
    &&& after.root_exists == before.root_exists
    &&& after.top_level_entries == before.top_level_entries
    &&& after.camera_layout == before.camera_layout
    &&& after.provider_notes == before.provider_notes
}

/// Records what a marker file holds in the evidence of its medium.
pub fn record_marker(evidence: &mut LocalSourceEvidence, marker_path: String, marker: MarkerFields)
    ensures
        marker_recorded(*old(evidence), *final(evidence), marker_path@, marker),
{
    let ghost m = marker;
    let serials = vec![marker.media_serial, marker.card_serial, marker.device_serial, marker.serial];
    assert(serials@ =~= seq![m.media_serial, m.card_serial, m.device_serial, m.serial]);
    let uuids = vec![marker.volume_uuid, marker.filesystem_uuid];
    assert(uuids@ =~= seq![m.volume_uuid, m.filesystem_uuid]);
    evidence.marker_path = Some(marker_path);
    evidence.marker_source_identity = marker.source_identity;
    evidence.marker_source_kind = marker.source_kind;
    evidence.marker_display_name = marker.display_name;
    evidence.marker_transport_uri = marker.transport_uri;
    evidence.media_serial = first_present(&serials);
    evidence.volume_uuid = first_present(&uuids);
    evidence.volume_label = marker.volume_label;
}

} // verus!
