//! The ingest workflow of the operator's view: which job a shell command
//! starts, the steps a full ingest runs in order, and how the view follows
//! what the runtime reports. The jobs themselves run off the view.
use vstd::prelude::*;
use crate::fmt::{dec, push_dec, strings_view};
use crate::model::{
    kept_active, selected_ids, with_selection, AppState, ClipCard, IdentifiedSourceSummary,
    SourceBrowserState,
};
use crate::runtime::{
    IdentifiedSourceRuntime, ProbeRuntimeReport, ProbedSourceRuntime, ScannedSourceRuntime,
};
use crate::text::{append_str, chars_of, string_of, trim, trim_str};
use crate::ui::shell::{identified_source_summary, ShellCommand};

verus! {

/// What the runtime reports back to the view while a job runs.
pub enum RuntimeEvent {
    SourceIdentified(Result<IdentifiedSourceRuntime, String>),
    SourceScanned(Result<ScannedSourceRuntime, String>),
    ProbeStarted(usize),
    ProbeFinished(Result<ProbedSourceRuntime, String>),
}

/// A job the runtime runs off the view.
pub enum IngestJob {
    /// Identify the source at a location, scan it, then probe every clip.
    FullIngest { location: String },
    /// Scan an identified source again.
    Rescan { source_identity: String, operator_location: String },
    /// Probe the selected clips of an identified source.
    ProbeSelected { source_identity: String, operator_location: String, clip_ids: Vec<String> },
}

pub open spec fn is_busy(s: AppState) -> bool {
    s.ingest_busy || s.probe_busy
}

/// The operator's settings of the view are the same.
pub open spec fn same_settings(a: AppState, b: AppState) -> bool {
    &&& a.library_tab == b.library_tab
    &&& a.archive_original == b.archive_original
    &&& a.ai_mining == b.ai_mining
}

/// Every field but the status line is the same.
pub open spec fn same_but_status(a: AppState, b: AppState) -> bool {
    &&& a.source == b.source
    &&& a.identified_source == b.identified_source
    &&& a.clips == b.clips
    &&& a.active_clip_id == b.active_clip_id
    &&& same_settings(a, b)
    &&& a.ingest_busy == b.ingest_busy
    &&& a.probe_busy == b.probe_busy
}

pub open spec fn with_busy(s: SourceBrowserState, busy: bool) -> SourceBrowserState {
    SourceBrowserState { busy, ..s }
}

/// A full ingest asked for: refused without a location; else the view
/// forgets the former source and its clips, and is busy identifying.
pub open spec fn full_ingest_started(before: AppState, after: AppState, r: Option<IngestJob>) -> bool {
    let location = trim(before.source.path@);
    if location.len() == 0 {
        &&& r is None
        &&& same_but_status(before, after)
        &&& after.status_line@ == "Odaberi lokaciju izvora."@
    } else {
        &&& r matches Some(IngestJob::FullIngest { location: l }) && l@ == location
        &&& after.ingest_busy && !after.probe_busy
        &&& after.source == with_busy(before.source, true)
        &&& after.identified_source is None
        &&& after.clips@.len() == 0
        &&& after.active_clip_id is None
        &&& same_settings(before, after)
        &&& after.status_line@ == "Identifikacija izvora..."@
    }
}

/// A rescan asked for: refused without an identified source; else the view
/// is busy scanning it.
pub open spec fn rescan_started(before: AppState, after: AppState, r: Option<IngestJob>) -> bool {
    match before.identified_source {
        None => {
            &&& r is None
            &&& same_but_status(before, after)
            &&& after.status_line@ == "Prvo odaberi izvor."@
        },
        Some(src) => {
            &&& r matches Some(IngestJob::Rescan { source_identity, operator_location })
                && source_identity == src.source_identity && operator_location
                == src.operator_location
            &&& after.ingest_busy && after.probe_busy == before.probe_busy
            &&& after.source == with_busy(before.source, true)
            &&& after.identified_source == before.identified_source
            &&& after.clips == before.clips
            &&& after.active_clip_id == before.active_clip_id
            &&& same_settings(before, after)
            &&& after.status_line@ == "Skeniranje izvora..."@
        },
    }
}

/// A probe of the selected clips asked for: refused without an identified
/// source or without a selected clip; else the view is busy probing them.
pub open spec fn probe_started(before: AppState, after: AppState, r: Option<IngestJob>) -> bool {
    let ids = selected_ids(before.clips@);
    match before.identified_source {
        None => {
            &&& r is None
            &&& same_but_status(before, after)
            &&& after.status_line@ == "Prvo odaberi izvor."@
        },
        Some(src) => if ids.len() == 0 {
            &&& r is None
            &&& same_but_status(before, after)
            &&& after.status_line@ == "Nema odabranih klipova za Ingest."@
        } else {
            &&& r matches Some(IngestJob::ProbeSelected { source_identity, operator_location, clip_ids })
                && source_identity == src.source_identity && operator_location
                == src.operator_location && strings_view(clip_ids@) == ids
            &&& after.ingest_busy && after.probe_busy
            &&& after.source == before.source
            &&& after.identified_source == before.identified_source
            &&& after.clips == before.clips
            &&& after.active_clip_id == before.active_clip_id
            &&& same_settings(before, after)
            &&& after.status_line@ == "Probe pokrenut za "@ + dec(ids.len()) + " klipova..."@
        },
    }
}

fn copy_text(s: &String) -> (r: String)
    ensures
        r == *s,
{
    s.clone()
}

/// The job a shell command starts. While a job runs no other starts, and
/// a started job leaves the view busy.
pub fn start_job(state: &mut AppState, command: ShellCommand) -> (r: Option<IngestJob>)
    ensures
        r is Some ==> !is_busy(*old(state)) && final(state).ingest_busy,
        command == ShellCommand::Idle || is_busy(*old(state)) ==> r is None && *final(state)
            == *old(state),
        command == ShellCommand::IngestSelectedSource && !is_busy(*old(state))
            ==> full_ingest_started(*old(state), *final(state), r),
        command == ShellCommand::ScanSelectedSource && !is_busy(*old(state)) ==> rescan_started(
            *old(state),
            *final(state),
            r,
        ),
        command == ShellCommand::ProbeSelectedClips && !is_busy(*old(state)) ==> probe_started(
            *old(state),
            *final(state),
            r,
        ),
{
    if state.ingest_busy || state.probe_busy {
        return None;
    }
    match command {
        ShellCommand::Idle => None,
        ShellCommand::IngestSelectedSource => {
            let location = trim_str(state.source.path.as_str());
            if location.len() == 0 {
                state.status_line = "Odaberi lokaciju izvora.".to_owned();
                return None;
            }
            state.ingest_busy = true;
            state.source.busy = true;
            state.probe_busy = false;
            state.identified_source = None;
            state.clips = Vec::new();
            state.active_clip_id = None;
            state.status_line = "Identifikacija izvora...".to_owned();
            Some(IngestJob::FullIngest { location: string_of(&location) })
        },
        ShellCommand::ScanSelectedSource => {
            let job = match &state.identified_source {
                None => None,
                Some(src) => Some(
                    IngestJob::Rescan {
                        source_identity: copy_text(&src.source_identity),
                        operator_location: copy_text(&src.operator_location),
                    },
                ),
            };
            if job.is_none() {
                state.status_line = "Prvo odaberi izvor.".to_owned();
                return None;
            }
            state.ingest_busy = true;
            state.source.busy = true;
            state.status_line = "Skeniranje izvora...".to_owned();
            job
        },
        ShellCommand::ProbeSelectedClips => {
            let (source_identity, operator_location) = match &state.identified_source {
                None => {
                    state.status_line = "Prvo odaberi izvor.".to_owned();
                    return None;
                },
                Some(src) => (copy_text(&src.source_identity), copy_text(&src.operator_location)),
            };
            let clip_ids = state.selected_clip_ids();
            if clip_ids.len() == 0 {
                state.status_line = "Nema odabranih klipova za Ingest.".to_owned();
                return None;
            }
            state.ingest_busy = true;
            state.probe_busy = true;
            let mut status = chars_of("Probe pokrenut za ");
            push_dec(&mut status, clip_ids.len() as u64);
            append_str(&mut status, " klipova...");
            state.status_line = string_of(&status);
            Some(IngestJob::ProbeSelected { source_identity, operator_location, clip_ids })
        },
    }
}

/// The summary the view keeps of an identified source.
pub open spec fn summary_of(r: IdentifiedSourceRuntime) -> IdentifiedSourceSummary {
    IdentifiedSourceSummary {
        operator_location: r.operator_location,
        source_identity: r.source_identity,
        source_kind: r.source_kind,
        display_name: r.display_name,
        transport_uri: r.transport_uri,
        content_database_uri: r.content_database_uri,
        identity_basis: r.identity_basis,
        identity_label: r.identity_label,
        identity_value: r.identity_value,
        confidence: r.confidence,
        seen_at: r.seen_at,
    }
}

/// The clips of a snapshot replace the view's, keeping each id's selection
/// and the active clip where it can.
pub open spec fn clips_replaced(before: AppState, after: AppState, clips: Seq<ClipCard>) -> bool {
    &&& after.clips@ == with_selection(clips, selected_ids(before.clips@))
    &&& crate::fmt::opt_view(&after.active_clip_id) == kept_active(
        crate::fmt::opt_view(&before.active_clip_id),
        clips,
    )
}

/// The clips and the active clip are the same.
pub open spec fn same_clips(a: AppState, b: AppState) -> bool {
    &&& a.clips == b.clips
    &&& a.active_clip_id == b.active_clip_id
}

/// How the view follows what the runtime reports.
pub open spec fn event_applied(before: AppState, after: AppState, event: RuntimeEvent) -> bool {
    &&& same_settings(before, after)
    &&& match event {
        RuntimeEvent::SourceIdentified(Ok(id)) => {
            &&& after.identified_source == Some(summary_of(id))
            &&& after.source == before.source
            &&& same_clips(before, after)
            &&& after.ingest_busy == before.ingest_busy && after.probe_busy == before.probe_busy
            &&& after.status_line@ == "Izvor: "@ + id.display_name@ + " ("@ + id.source_identity@
                + ")"@
        },
        RuntimeEvent::SourceIdentified(Err(e)) => {
            &&& after.identified_source == before.identified_source
            &&& after.source == with_busy(before.source, false)
            &&& same_clips(before, after)
            &&& !after.ingest_busy && !after.probe_busy
            &&& after.status_line@ == "Identifikacija nije uspjela: "@ + e@
        },
        RuntimeEvent::SourceScanned(Ok(s)) => {
            &&& after.identified_source == before.identified_source
            &&& after.source == with_busy(before.source, false)
            &&& clips_replaced(before, after, s.clips@)
            &&& after.ingest_busy == before.ingest_busy && after.probe_busy == before.probe_busy
            &&& after.status_line@ == "Skenirano: "@ + dec(s.report.media_files_seen as nat)
                + " media datoteka, "@ + dec(s.clips@.len()) + " klipova u bazi."@
        },
        RuntimeEvent::SourceScanned(Err(e)) => {
            &&& after.identified_source == before.identified_source
            &&& after.source == with_busy(before.source, false)
            &&& same_clips(before, after)
            &&& !after.ingest_busy && !after.probe_busy
            &&& after.status_line@ == "Skeniranje nije uspjelo: "@ + e@
        },
        RuntimeEvent::ProbeStarted(n) => {
            &&& after.identified_source == before.identified_source
            &&& after.source == before.source
            &&& same_clips(before, after)
            &&& after.ingest_busy == before.ingest_busy && after.probe_busy
            &&& after.status_line@ == "Probe u tijeku: "@ + dec(n as nat) + " klipova."@
        },
        RuntimeEvent::ProbeFinished(Ok(p)) => {
            &&& after.identified_source == before.identified_source
            &&& after.source == before.source
            &&& clips_replaced(before, after, p.clips@)
            &&& !after.ingest_busy && !after.probe_busy
            &&& after.status_line@ == "Probe završen: "@ + dec(p.report.probes_ok as nat) + " OK, "@
                + dec(p.report.probes_error as nat) + " greška."@
        },
        RuntimeEvent::ProbeFinished(Err(e)) => {
            &&& after.identified_source == before.identified_source
            &&& after.source == before.source
            &&& same_clips(before, after)
            &&& !after.ingest_busy && !after.probe_busy
            &&& after.status_line@ == "Probe nije uspio: "@ + e@
        },
    }
}

fn message(prefix: &str, detail: &str) -> (r: String)
    ensures
        r@ == prefix@ + detail@,
{
    let mut t = chars_of(prefix);
    append_str(&mut t, detail);
    string_of(&t)
}

/// The view after an event of the runtime.
pub fn apply_runtime_event(state: &mut AppState, event: RuntimeEvent)
    ensures
        event_applied(*old(state), *final(state), event),
{
    match event {
        RuntimeEvent::SourceIdentified(Ok(identified)) => {
            let mut t = chars_of("Izvor: ");
            append_str(&mut t, identified.display_name.as_str());
            append_str(&mut t, " (");
            append_str(&mut t, identified.source_identity.as_str());
            append_str(&mut t, ")");
            state.identified_source = Some(identified_source_summary(&identified));
            state.status_line = string_of(&t);
        },
        RuntimeEvent::SourceIdentified(Err(error)) => {
            state.source.busy = false;
            state.ingest_busy = false;
            state.probe_busy = false;
            state.status_line = message("Identifikacija nije uspjela: ", error.as_str());
        },
        RuntimeEvent::SourceScanned(Ok(scanned)) => {
            state.source.busy = false;
            let mut t = chars_of("Skenirano: ");
            push_dec(&mut t, scanned.report.media_files_seen as u64);
            append_str(&mut t, " media datoteka, ");
            push_dec(&mut t, scanned.clips.len() as u64);
            append_str(&mut t, " klipova u bazi.");
            state.replace_clips_preserving_selection(scanned.clips);
            state.status_line = string_of(&t);
        },
        RuntimeEvent::SourceScanned(Err(error)) => {
            state.source.busy = false;
            state.ingest_busy = false;
            state.probe_busy = false;
            state.status_line = message("Skeniranje nije uspjelo: ", error.as_str());
        },
        RuntimeEvent::ProbeStarted(total) => {
            state.probe_busy = true;
            let mut t = chars_of("Probe u tijeku: ");
            push_dec(&mut t, total as u64);
            append_str(&mut t, " klipova.");
            state.status_line = string_of(&t);
        },
        RuntimeEvent::ProbeFinished(Ok(probed)) => {
            state.probe_busy = false;
            state.ingest_busy = false;
            let mut t = chars_of("Probe završen: ");
            push_dec(&mut t, probed.report.probes_ok as u64);
            append_str(&mut t, " OK, ");
            push_dec(&mut t, probed.report.probes_error as u64);
            append_str(&mut t, " greška.");
            state.replace_clips_preserving_selection(probed.clips);
            state.status_line = string_of(&t);
        },
        RuntimeEvent::ProbeFinished(Err(error)) => {
            state.probe_busy = false;
            state.ingest_busy = false;
            state.status_line = message("Probe nije uspio: ", error.as_str());
        },
    }
}

/// After the identification step of a full ingest: the event for the
/// view, and, when the source was identified, the scan to run next (its
/// identity and operator location).
pub fn after_identification(result: Result<IdentifiedSourceRuntime, String>) -> (r: (
    RuntimeEvent,
    Option<(String, String)>,
))
    ensures
        r.0 == RuntimeEvent::SourceIdentified(result),
        match result {
            Ok(id) => r.1 == Some((id.source_identity, id.operator_location)),
            Err(_) => r.1 is None,
        },
{
    let next = match &result {
        Ok(id) => Some((copy_text(&id.source_identity), copy_text(&id.operator_location))),
        Err(_) => None,
    };
    (RuntimeEvent::SourceIdentified(result), next)
}

/// The ids of the clips, in order.
fn clip_ids_of(clips: &Vec<ClipCard>) -> (r: Vec<String>)
    ensures
        strings_view(r@) == clips@.map_values(|c: ClipCard| c.id@),
{
    let mut out: Vec<String> = Vec::new();
    let mut i: usize = 0;
    while i < clips.len()
        invariant
            i <= clips@.len(),
            strings_view(out@) == clips@.take(i as int).map_values(|c: ClipCard| c.id@),
        decreases clips@.len() - i,
    {
        let ghost before = out@;
        out.push(copy_text(&clips[i].id));
        proof {
            assert(strings_view(out@) =~= strings_view(before).push(clips@[i as int].id@));
            assert(clips@.take(i + 1).map_values(|c: ClipCard| c.id@) =~= clips@.take(
                i as int,
            ).map_values(|c: ClipCard| c.id@).push(clips@[i as int].id@));
        }
        i = i + 1;
    }
    assert(clips@.take(clips@.len() as int) =~= clips@);
    out
}

/// The probe report of a source without clips: nothing requested.
pub open spec fn empty_probe_report(r: ProbeRuntimeReport, source_identity: Seq<char>) -> bool {
    &&& r.source_identity@ == source_identity
    &&& r.requested_clips == 0 && r.candidate_clips == 0
    &&& r.probes_ok == 0 && r.probes_error == 0 && r.probes_skipped == 0
}

/// What follows a successful scan of a full ingest: the probe of every
/// scanned clip, or, without clips, an empty probe report.
pub open spec fn scan_followed(
    s: ScannedSourceRuntime,
    source_identity: Seq<char>,
    events: Seq<RuntimeEvent>,
    next: Option<Vec<String>>,
) -> bool {
    &&& events.len() == 2
    &&& if s.clips@.len() == 0 {
        &&& events[1] matches RuntimeEvent::ProbeFinished(Ok(p)) && p.clips@.len() == 0
            && empty_probe_report(p.report, source_identity)
        &&& next is None
    } else {
        &&& events[1] matches RuntimeEvent::ProbeStarted(n) && n == s.clips@.len()
        &&& next matches Some(ids) && strings_view(ids@) == s.clips@.map_values(
            |c: ClipCard| c.id@,
        )
    }
}

/// After the scan step of a full ingest of the source `source_identity`:
/// the events for the view, and the ids of every scanned clip, which are
/// probed next. A scan without clips ends the ingest with an empty probe
/// report.
pub fn after_full_scan(source_identity: &str, result: Result<ScannedSourceRuntime, String>) -> (r: (
    Vec<RuntimeEvent>,
    Option<Vec<String>>,
))
    ensures
        r.0@.len() >= 1 && r.0@[0] == RuntimeEvent::SourceScanned(result),
        result is Err ==> r.0@.len() == 1 && r.1 is None,
        result is Ok ==> scan_followed(result->Ok_0, source_identity@, r.0@, r.1),
{
    let ids = match &result {
        Ok(s) => Some(clip_ids_of(&s.clips)),
        Err(_) => None,
    };
    assert(ids is None <==> result is Err);
    let mut events: Vec<RuntimeEvent> = Vec::new();
    events.push(RuntimeEvent::SourceScanned(result));
    assert(events@ =~= seq![RuntimeEvent::SourceScanned(result)]);
    match ids {
        None => (events, None),
        Some(ids) => {
            assert(result is Ok);
            let ghost sc = result->Ok_0;
            assert(ids@.len() == sc.clips@.len()) by {
                assert(strings_view(ids@).len() == ids@.len());
            }
            if ids.len() == 0 {
                events.push(
                    RuntimeEvent::ProbeFinished(
                        Ok(
                            ProbedSourceRuntime {
                                report: ProbeRuntimeReport {
                                    source_identity: source_identity.to_owned(),
                                    requested_clips: 0,
                                    candidate_clips: 0,
                                    probes_ok: 0,
                                    probes_error: 0,
                                    probes_skipped: 0,
                                },
                                clips: Vec::new(),
                            },
                        ),
                    ),
                );
                (events, None)
            } else {
                events.push(RuntimeEvent::ProbeStarted(ids.len()));
                (events, Some(ids))
            }
        },
    }
}

/// The events that end a job: a failed identification or scan, and a
/// finished probe.
pub open spec fn ends_job(event: RuntimeEvent) -> bool {
    match event {
        RuntimeEvent::SourceIdentified(Err(_)) => true,
        RuntimeEvent::SourceScanned(Err(_)) => true,
        RuntimeEvent::ProbeFinished(_) => true,
        _ => false,
    }
}

/// When a job ends, the view is free to start the next one.
pub proof fn lemma_job_end_frees_the_view(before: AppState, after: AppState, event: RuntimeEvent)
    requires
        event_applied(before, after, event),
        ends_job(event),
    ensures
        !is_busy(after),
{
}

} // verus!
