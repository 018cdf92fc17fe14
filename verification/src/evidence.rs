//! The JSON evidence stored with a source identity: the envelope, the local
//! and network evidence inside it, and the root signature payload that the
//! fallback fingerprint hashes. Members are written in declaration order,
//! except the signature payload, whose keys are sorted.
use vstd::prelude::*;
use crate::fmt::{
    json_array_text, json_bool, json_bool_text, json_member_of, json_null, json_object,
    json_object_of, json_opt_string, json_opt_text, json_str_text, json_string,
    json_string_array, json_text, lemma_json_object, members_text, opt_view, strings_view,
};
use crate::source_identity::{LocalSourceEvidence, NetworkSourceEvidence, NetworkView};
use crate::text::{append_str, chars_of, texts};

verus! {

pub open spec fn local_evidence_members(ev: LocalSourceEvidence) -> Seq<(Seq<char>, Seq<char>)> {
    seq![
        ("marker_source_identity"@, json_opt_string(opt_view(&ev.marker_source_identity))),
        ("marker_source_kind"@, json_opt_string(opt_view(&ev.marker_source_kind))),
        ("marker_display_name"@, json_opt_string(opt_view(&ev.marker_display_name))),
        ("marker_transport_uri"@, json_opt_string(opt_view(&ev.marker_transport_uri))),
        ("marker_path"@, json_opt_string(opt_view(&ev.marker_path))),
        ("media_serial"@, json_opt_string(opt_view(&ev.media_serial))),
        ("volume_uuid"@, json_opt_string(opt_view(&ev.volume_uuid))),
        ("volume_label"@, json_opt_string(opt_view(&ev.volume_label))),
        ("canonical_path"@, json_opt_string(opt_view(&ev.canonical_path))),
        ("root_exists"@, json_bool(ev.root_exists)),
        ("top_level_entries"@, json_string_array(strings_view(ev.top_level_entries@))),
        ("camera_layout"@, json_string_array(strings_view(ev.camera_layout@))),
        ("provider_notes"@, json_string_array(strings_view(ev.provider_notes@))),
    ]
}

/// The local evidence as a JSON object.
pub open spec fn local_evidence_json(ev: LocalSourceEvidence) -> Seq<char> {
    json_object(local_evidence_members(ev))
}

pub open spec fn network_evidence_members(n: NetworkView) -> Seq<(Seq<char>, Seq<char>)> {
    seq![
        ("input_location"@, json_string(n.input_location)),
        ("host"@, json_string(n.host)),
        ("share_or_gateway_path"@, json_string(n.share_or_gateway_path)),
        ("transport_uri"@, json_string(n.transport_uri)),
    ]
}

/// The network evidence as a JSON object.
pub open spec fn network_evidence_json(n: NetworkView) -> Seq<char> {
    json_object(network_evidence_members(n))
}

pub open spec fn json_or_null(o: Option<Seq<char>>) -> Seq<char> {
    match o {
        Some(j) => j,
        None => json_null(),
    }
}

/// The fields of an identity evidence envelope, as texts.
pub struct EnvelopeFields {
    pub input_location: Seq<char>,
    pub source_kind: Seq<char>,
    pub transport_uri: Seq<char>,
    pub identity_basis: Seq<char>,
    pub confidence: Seq<char>,
    pub os: Seq<char>,
    pub arch: Seq<char>,
    pub local: Option<Seq<char>>,
    pub network: Option<Seq<char>>,
}

pub open spec fn envelope_members(f: EnvelopeFields) -> Seq<(Seq<char>, Seq<char>)> {
    seq![
        ("schema_version"@, seq!['1']),
        ("input_location"@, json_string(f.input_location)),
        ("source_kind"@, json_string(f.source_kind)),
        ("transport_uri"@, json_string(f.transport_uri)),
        ("identity_basis"@, json_string(f.identity_basis)),
        ("confidence"@, json_string(f.confidence)),
        ("os"@, json_string(f.os)),
        ("arch"@, json_string(f.arch)),
        ("local"@, json_or_null(f.local)),
        ("network"@, json_or_null(f.network)),
    ]
}

/// The identity evidence envelope (schema version 1) as a JSON object.
pub open spec fn envelope_json(f: EnvelopeFields) -> Seq<char> {
    json_object(envelope_members(f))
}

pub open spec fn signature_members(ev: LocalSourceEvidence) -> Seq<(Seq<char>, Seq<char>)> {
    seq![
        ("camera_layout"@, json_string_array(strings_view(ev.camera_layout@))),
        ("top_level_entries"@, json_string_array(strings_view(ev.top_level_entries@))),
        ("volume_label"@, json_opt_string(opt_view(&ev.volume_label))),
    ]
}

/// The root signature of a medium: its volume label, top level entries and
/// camera layout, as a JSON object with sorted keys.
pub open spec fn signature_payload(ev: LocalSourceEvidence) -> Seq<char> {
    json_object(signature_members(ev))
}

pub fn render_local_evidence(ev: &LocalSourceEvidence) -> (r: Vec<char>)
    ensures
        r@ == local_evidence_json(*ev),
{
    let mut m: Vec<Vec<char>> = Vec::new();
    let v = json_opt_text(&ev.marker_source_identity);
    m.push(json_member_of("marker_source_identity", &v));
    let v = json_opt_text(&ev.marker_source_kind);
    m.push(json_member_of("marker_source_kind", &v));
    let v = json_opt_text(&ev.marker_display_name);
    m.push(json_member_of("marker_display_name", &v));
    let v = json_opt_text(&ev.marker_transport_uri);
    m.push(json_member_of("marker_transport_uri", &v));
    let v = json_opt_text(&ev.marker_path);
    m.push(json_member_of("marker_path", &v));
    let v = json_opt_text(&ev.media_serial);
    m.push(json_member_of("media_serial", &v));
    let v = json_opt_text(&ev.volume_uuid);
    m.push(json_member_of("volume_uuid", &v));
    let v = json_opt_text(&ev.volume_label);
    m.push(json_member_of("volume_label", &v));
    let v = json_opt_text(&ev.canonical_path);
    m.push(json_member_of("canonical_path", &v));
    let v = json_bool_text(ev.root_exists);
    m.push(json_member_of("root_exists", &v));
    let v = json_array_text(&ev.top_level_entries);
    m.push(json_member_of("top_level_entries", &v));
    let v = json_array_text(&ev.camera_layout);
    m.push(json_member_of("camera_layout", &v));
    let v = json_array_text(&ev.provider_notes);
    m.push(json_member_of("provider_notes", &v));
    proof {
        let members = local_evidence_members(*ev);
        assert(texts(m@) =~= members_text(members));
        lemma_json_object(members, texts(m@));
    }
    json_object_of(&m)
}

pub fn render_network_evidence(n: &NetworkSourceEvidence) -> (r: Vec<char>)
    ensures
        r@ == network_evidence_json(n@),
{
    let mut m: Vec<Vec<char>> = Vec::new();
    let v = json_str_text(n.input_location.as_str());
    m.push(json_member_of("input_location", &v));
    let v = json_str_text(n.host.as_str());
    m.push(json_member_of("host", &v));
    let v = json_str_text(n.share_or_gateway_path.as_str());
    m.push(json_member_of("share_or_gateway_path", &v));
    let v = json_str_text(n.transport_uri.as_str());
    m.push(json_member_of("transport_uri", &v));
    proof {
        let members = network_evidence_members(n@);
        assert(texts(m@) =~= members_text(members));
        lemma_json_object(members, texts(m@));
    }
    json_object_of(&m)
}

pub open spec fn opt_chars(o: &Option<Vec<char>>) -> Option<Seq<char>> {
    match o {
        Some(v) => Some(v@),
        None => None,
    }
}

fn json_or_null_text(o: &Option<Vec<char>>) -> (r: Vec<char>)
    ensures
        r@ == json_or_null(opt_chars(o)),
{
    match o {
        Some(v) => crate::text::copy_chars(v),
        None => {
            let r = chars_of("null");
            proof {
                reveal_strlit("null");
            }
            assert(r@ =~= json_null());
            r
        },
    }
}

/// Renders the identity evidence envelope.
pub fn render_envelope(
    input_location: &str,
    source_kind: &[char],
    transport_uri: &[char],
    identity_basis: &[char],
    confidence: &str,
    os: &str,
    arch: &str,
    local: &Option<Vec<char>>,
    network: &Option<Vec<char>>,
) -> (r: Vec<char>)
    ensures
        r@ == envelope_json(
            EnvelopeFields {
                input_location: input_location@,
                source_kind: source_kind@,
                transport_uri: transport_uri@,
                identity_basis: identity_basis@,
                confidence: confidence@,
                os: os@,
                arch: arch@,
                local: opt_chars(local),
                network: opt_chars(network),
            },
        ),
{
    let mut m: Vec<Vec<char>> = Vec::new();
    let one = vec!['1'];
    m.push(json_member_of("schema_version", &one));
    let v = json_str_text(input_location);
    m.push(json_member_of("input_location", &v));
    let v = json_text(source_kind);
    m.push(json_member_of("source_kind", &v));
    let v = json_text(transport_uri);
    m.push(json_member_of("transport_uri", &v));
    let v = json_text(identity_basis);
    m.push(json_member_of("identity_basis", &v));
    let v = json_str_text(confidence);
    m.push(json_member_of("confidence", &v));
    let v = json_str_text(os);
    m.push(json_member_of("os", &v));
    let v = json_str_text(arch);
    m.push(json_member_of("arch", &v));
    let v = json_or_null_text(local);
    m.push(json_member_of("local", &v));
    let v = json_or_null_text(network);
    m.push(json_member_of("network", &v));
    proof {
        let f = EnvelopeFields {
            input_location: input_location@,
            source_kind: source_kind@,
            transport_uri: transport_uri@,
            identity_basis: identity_basis@,
            confidence: confidence@,
            os: os@,
            arch: arch@,
            local: opt_chars(local),
            network: opt_chars(network),
        };
        assert(one@ =~= seq!['1']);
        let members = envelope_members(f);
        assert(texts(m@) =~= members_text(members));
        lemma_json_object(members, texts(m@));
    }
    json_object_of(&m)
}

pub fn render_signature_payload(ev: &LocalSourceEvidence) -> (r: Vec<char>)
    ensures
        r@ == signature_payload(*ev),
{
    let mut m: Vec<Vec<char>> = Vec::new();
    let v = json_array_text(&ev.camera_layout);
    m.push(json_member_of("camera_layout", &v));
    let v = json_array_text(&ev.top_level_entries);
    m.push(json_member_of("top_level_entries", &v));
    let v = json_opt_text(&ev.volume_label);
    m.push(json_member_of("volume_label", &v));
    proof {
        let members = signature_members(*ev);
        assert(texts(m@) =~= members_text(members));
        lemma_json_object(members, texts(m@));
    }
    json_object_of(&m)
}

} // verus!
