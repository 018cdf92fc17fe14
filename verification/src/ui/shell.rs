//! Commands of the ingest shell, the summary it keeps of an identified
//! source, and how it updates its state from what the runtime answers.
use vstd::prelude::*;
use crate::fmt::{dec, dec_pad, opt_view, push_dec, push_dec_pad};
use crate::model::{
    clip_index, find_clip, imported_count, kind_label, parent_of, selected_ids, selection_status,
    toggled, AppState,
    IdentifiedSourceSummary, SourceBrowserState, SourceKind,
};
use crate::ui::location_browser::LocationBrowserAction;
use crate::runtime::{IdentifiedSourceRuntime, SourceEntrySnapshot};
use crate::text::{
    append_str, chars_of, starts_with, str_eq, string_of, strip_prefix_str, trim, trim_chars,
    trim_str,
};

verus! {

/// What the shell asks the runtime to do after a frame.
#[derive(Debug, Clone, Copy, PartialEq, Eq, Structural)]
pub enum ShellCommand {
    Idle,
    IngestSelectedSource,
    ScanSelectedSource,
    ProbeSelectedClips,
}

/// Keeps the first command of a frame: `next` only replaces `Idle`.
pub fn set_command(command: &mut ShellCommand, next: ShellCommand)
    ensures
        *final(command) == if *old(command) == ShellCommand::Idle {
            next
        } else {
            *old(command)
        },
{
    if *command == ShellCommand::Idle {
        *command = next;
    }
}

/// The summary the shell shows of an identified source.
pub fn identified_source_summary(identified: &IdentifiedSourceRuntime) -> (r:
    IdentifiedSourceSummary)
    ensures
        r.operator_location == identified.operator_location,
        r.source_identity == identified.source_identity,
        r.source_kind == identified.source_kind,
        r.display_name == identified.display_name,
        r.transport_uri == identified.transport_uri,
        r.content_database_uri == identified.content_database_uri,
        r.identity_basis == identified.identity_basis,
        r.identity_label == identified.identity_label,
        r.identity_value == identified.identity_value,
        r.confidence == identified.confidence,
        r.seen_at == identified.seen_at,
{
    IdentifiedSourceSummary {
        operator_location: identified.operator_location.clone(),
        source_identity: identified.source_identity.clone(),
        source_kind: identified.source_kind.clone(),
        display_name: identified.display_name.clone(),
        transport_uri: identified.transport_uri.clone(),
        content_database_uri: identified.content_database_uri.clone(),
        identity_basis: identified.identity_basis.clone(),
        identity_label: identified.identity_label.clone(),
        identity_value: identified.identity_value.clone(),
        confidence: identified.confidence.clone(),
        seen_at: identified.seen_at.clone(),
    }
}

/// The serial shown beside the source: its identity value trimmed and
/// without the `windows-volume-serial-` prefix; none for a network
/// endpoint, or where nothing is left.
pub open spec fn serial_suffix(s: IdentifiedSourceSummary) -> Option<Seq<char>> {
    let value = trim(s.identity_value@);
    if value.len() == 0 || s.identity_basis@ == "transport_endpoint"@ {
        None
    } else {
        let serial = trim(
            if starts_with(value, "windows-volume-serial-"@) {
                value.skip("windows-volume-serial-"@.len() as int)
            } else {
                value
            },
        );
        if serial.len() == 0 {
            None
        } else {
            Some(serial)
        }
    }
}

pub fn source_serial_suffix(state: &AppState) -> (r: Option<String>)
    ensures
        opt_view(&r) == match state.identified_source {
            Some(s) => serial_suffix(s),
            None => None,
        },
{
    match &state.identified_source {
        None => None,
        Some(source) => {
            let value = trim_str(source.identity_value.as_str());
            if value.len() == 0 || str_eq(source.identity_basis.as_str(), "transport_endpoint") {
                return None;
            }
            let rest = match strip_prefix_str(&value, "windows-volume-serial-") {
                Some(rest) => rest,
                None => value,
            };
            let serial = trim_chars(&rest);
            if serial.len() == 0 {
                None
            } else {
                Some(string_of(&serial))
            }
        },
    }
}

/// Forgets the identified source, its clips and the active clip.
pub fn clear_selected_source(state: &mut AppState)
    ensures
        final(state).identified_source is None,
        final(state).clips@.len() == 0,
        final(state).active_clip_id is None,
        final(state).source == old(state).source,
        final(state).library_tab == old(state).library_tab,
        final(state).archive_original == old(state).archive_original,
        final(state).ai_mining == old(state).ai_mining,
        final(state).ingest_busy == old(state).ingest_busy,
        final(state).probe_busy == old(state).probe_busy,
        final(state).status_line == old(state).status_line,
{
    state.identified_source = None;
    state.clips = Vec::new();
    state.active_clip_id = None;
}

/// The browser after the runtime listed its kind and path: the snapshot's
/// root flag, path, parent, entries and root label with no error; or, on
/// an error, no entries and no root label, and the error's text. Either
/// way it is no longer busy.
pub fn refresh_source_entries(state: &mut AppState, listing: Result<SourceEntrySnapshot, String>)
    ensures
        final(state).source.kind == old(state).source.kind,
        !final(state).source.busy,
        match listing {
            Ok(s) => {
                &&& final(state).source.roots == s.roots
                &&& final(state).source.path == s.path
                &&& final(state).source.parent == s.parent
                &&& final(state).source.entries == s.entries
                &&& final(state).source.selected_root_label == s.selected_root_label
                &&& final(state).source.error is None
            },
            Err(e) => {
                &&& final(state).source.roots == old(state).source.roots
                &&& final(state).source.path == old(state).source.path
                &&& final(state).source.parent == old(state).source.parent
                &&& final(state).source.entries@.len() == 0
                &&& final(state).source.selected_root_label is None
                &&& final(state).source.error == Some(e)
            },
        },
        final(state).identified_source == old(state).identified_source,
        final(state).clips == old(state).clips,
        final(state).active_clip_id == old(state).active_clip_id,
        final(state).status_line == old(state).status_line,
{
    match listing {
        Ok(snapshot) => {
            state.source.roots = snapshot.roots;
            state.source.path = snapshot.path;
            state.source.parent = snapshot.parent;
            state.source.entries = snapshot.entries;
            state.source.selected_root_label = snapshot.selected_root_label;
            state.source.error = None;
            state.source.busy = false;
        },
        Err(error) => {
            state.source.entries = Vec::new();
            state.source.selected_root_label = None;
            state.source.error = Some(error);
            state.source.busy = false;
        },
    }
}

/// The `hh:mm:ss:ff` timecode of a frame count at a whole frame rate.
pub open spec fn timecode_of(total_frames: nat, fps: nat) -> Seq<char> {
    let ff = total_frames % fps;
    let total_sec = total_frames / fps;
    let ss = total_sec % 60;
    let total_min = total_sec / 60;
    let mm = total_min % 60;
    let hh = total_min / 60;
    dec_pad(hh, 2) + seq![':'] + dec_pad(mm, 2) + seq![':'] + dec_pad(ss, 2) + seq![':'] + dec_pad(
        ff,
        2,
    )
}

/// The timecode shown for a position, given as whole frames at a whole
/// frame rate of at least one.
pub fn timecode_text(total_frames: u64, fps: u64) -> (r: String)
    requires
        fps >= 1,
    ensures
        r@ == timecode_of(total_frames as nat, fps as nat),
{
    let ff = total_frames % fps;
    let total_sec = total_frames / fps;
    let ss = total_sec % 60;
    let total_min = total_sec / 60;
    let mm = total_min % 60;
    let hh = total_min / 60;
    let mut out: Vec<char> = Vec::new();
    push_dec_pad(&mut out, hh, 2);
    out.push(':');
    push_dec_pad(&mut out, mm, 2);
    out.push(':');
    push_dec_pad(&mut out, ss, 2);
    out.push(':');
    push_dec_pad(&mut out, ff, 2);
    string_of(&out)
}

/// The browser after it opened `path` as a location of `kind`: a local
/// path shows its parent (or the roots when it is blank); a LAN or
/// intranet location is kept as typed. Nothing is listed yet.
pub open spec fn browser_opened(
    before: SourceBrowserState,
    after: SourceBrowserState,
    kind: SourceKind,
    path: Seq<char>,
) -> bool {
    let local = kind == SourceKind::Local;
    &&& after.kind == kind
    &&& after.path@ == path
    &&& after.roots == (local && trim(path).len() == 0)
    &&& opt_view(&after.parent) == if local && trim(path).len() > 0 {
        parent_of(path)
    } else {
        None
    }
    &&& after.entries@.len() == 0
    &&& after.selected_root_label is None
    &&& after.error is None
    &&& after.busy == before.busy
}

/// The identified source, its clips and the active clip are forgotten;
/// the settings and the busy flags stay.
pub open spec fn source_forgotten(before: AppState, after: AppState) -> bool {
    &&& after.identified_source is None
    &&& after.clips@.len() == 0
    &&& after.active_clip_id is None
    &&& after.library_tab == before.library_tab
    &&& after.archive_original == before.archive_original
    &&& after.ai_mining == before.ai_mining
    &&& after.ingest_busy == before.ingest_busy
    &&& after.probe_busy == before.probe_busy
}

/// How the view follows an action of the location browser. The result
/// says whether the browser's local path must be listed again (the
/// runtime lists it, then `refresh_source_entries` shows it).
pub open spec fn browser_action_applied(
    before: AppState,
    after: AppState,
    command_before: ShellCommand,
    command_after: ShellCommand,
    action: LocationBrowserAction,
    refresh: bool,
) -> bool {
    match action {
        LocationBrowserAction::Idle => after == before && command_after == command_before
            && !refresh,
        LocationBrowserAction::SelectKind(kind) => {
            &&& browser_opened(before.source, after.source, kind, Seq::empty())
            &&& source_forgotten(before, after)
            &&& after.status_line@ == "Stablo: "@ + kind_label(kind)
            &&& refresh == (kind == SourceKind::Local)
            &&& command_after == command_before
        },
        LocationBrowserAction::OpenPath(path) => {
            &&& browser_opened(before.source, after.source, before.source.kind, path@)
            &&& source_forgotten(before, after)
            &&& after.status_line@ == if trim(path@).len() == 0 {
                "Stablo: računalo."@
            } else {
                "Stablo: "@ + path@
            }
            &&& refresh == (before.source.kind == SourceKind::Local)
            &&& command_after == command_before
        },
        LocationBrowserAction::Confirm => {
            &&& after == before
            &&& command_after == if command_before == ShellCommand::Idle {
                ShellCommand::IngestSelectedSource
            } else {
                command_before
            }
            &&& !refresh
        },
        LocationBrowserAction::Cancel => {
            &&& after.source == before.source
            &&& source_forgotten(before, after)
            &&& after.status_line@ == "Stablo: računalo."@
            &&& !refresh
            &&& command_after == command_before
        },
    }
}

fn open_remote(source: &mut SourceBrowserState, kind: SourceKind, path: String)
    requires
        kind != SourceKind::Local,
    ensures
        browser_opened(*old(source), *final(source), kind, path@),
{
    source.kind = kind;
    source.roots = false;
    source.path = path;
    source.parent = None;
    source.entries = Vec::new();
    source.selected_root_label = None;
    source.error = None;
}

/// Applies an action of the location browser to the view and to the
/// frame's command.
pub fn apply_browser_action(
    state: &mut AppState,
    action: LocationBrowserAction,
    command: &mut ShellCommand,
) -> (refresh: bool)
    ensures
        browser_action_applied(
            *old(state),
            *final(state),
            *old(command),
            *final(command),
            action,
            refresh,
        ),
{
    match action {
        LocationBrowserAction::Idle => false,
        LocationBrowserAction::SelectKind(kind) => {
            let local = kind == SourceKind::Local;
            if local {
                state.source.open_path(String::new());
            } else {
                open_remote(&mut state.source, kind, String::new());
            }
            clear_selected_source(state);
            let mut t = chars_of("Stablo: ");
            append_str(&mut t, kind.label());
            state.status_line = string_of(&t);
            local
        },
        LocationBrowserAction::OpenPath(path) => {
            clear_selected_source(state);
            let blank = trim_str(path.as_str()).len() == 0;
            let status = if blank {
                "Stablo: računalo.".to_owned()
            } else {
                let mut t = chars_of("Stablo: ");
                append_str(&mut t, path.as_str());
                string_of(&t)
            };
            let local = state.source.kind == SourceKind::Local;
            if local {
                state.source.open_path(path);
            } else {
                let kind = state.source.kind;
                open_remote(&mut state.source, kind, path);
            }
            state.status_line = status;
            local
        },
        LocationBrowserAction::Confirm => {
            set_command(command, ShellCommand::IngestSelectedSource);
            false
        },
        LocationBrowserAction::Cancel => {
            clear_selected_source(state);
            state.status_line = "Stablo: računalo.".to_owned();
            false
        },
    }
}

/// The status of the source dock: what runs, or how many clips are
/// imported, then the selection.
pub open spec fn dock_status_text(s: AppState) -> Seq<char> {
    let tail = " · "@ + dec(selected_ids(s.clips@).len()) + seq!['/'] + dec(s.clips@.len());
    if s.probe_busy {
        "probe u tijeku"@ + tail
    } else if s.ingest_busy {
        "ingest u tijeku"@ + tail
    } else {
        dec(imported_count(s.clips@)) + " uvezeno"@ + tail
    }
}

pub fn dock_status(state: &AppState) -> (r: String)
    ensures
        r@ == dock_status_text(*state),
{
    let mut t: Vec<char> = if state.probe_busy {
        chars_of("probe u tijeku")
    } else if state.ingest_busy {
        chars_of("ingest u tijeku")
    } else {
        let mut n: Vec<char> = Vec::new();
        push_dec(&mut n, state.imported_clip_count() as u64);
        append_str(&mut n, " uvezeno");
        n
    };
    append_str(&mut t, " · ");
    push_dec(&mut t, state.selected_clip_count() as u64);
    t.push('/');
    push_dec(&mut t, state.clips.len() as u64);
    string_of(&t)
}

/// The name shown in the source dock: the active clip's, else the
/// identified source's, else `—`.
pub open spec fn dock_label_text(s: AppState) -> Seq<char> {
    match crate::fmt::opt_view(&s.active_clip_id) {
        Some(id) if clip_index(s.clips@, id) is Some => s.clips@[clip_index(
            s.clips@,
            id,
        )->0 as int].name@,
        _ => match s.identified_source {
            Some(src) => src.display_name@,
            None => "—"@,
        },
    }
}

pub fn dock_label(state: &AppState) -> (r: String)
    ensures
        r@ == dock_label_text(*state),
{
    match state.active_clip() {
        Some(clip) => clip.name.clone(),
        None => match &state.identified_source {
            Some(src) => src.display_name.clone(),
            None => "—".to_owned(),
        },
    }
}

/// The dock offers the import of the selection when clips are selected and
/// neither the source nor a probe is busy.
pub fn import_enabled(state: &AppState) -> (r: bool)
    ensures
        r == (selected_ids(state.clips@).len() > 0 && !state.source.busy && !state.probe_busy),
{
    state.selected_clip_count() > 0 && !state.source.busy && !state.probe_busy
}

/// What a click on a clip card asks: make the clip active, or flip its
/// selection.
#[derive(Debug, Clone, PartialEq, Eq)]
pub enum CardGridAction {
    Activate(String),
    ToggleSelection(String),
}

/// Applies a click on a clip card: the first clip with the id becomes
/// active, or its selection flips; an unknown id changes nothing.
pub fn apply_card_grid_action(state: &mut AppState, action: CardGridAction)
    ensures
        match action {
            CardGridAction::Activate(id) => match clip_index(old(state).clips@, id@) {
                Some(i) => {
                    &&& final(state).clips == old(state).clips
                    &&& opt_view(&final(state).active_clip_id) == Some(id@)
                    &&& final(state).status_line@ == "Klip: "@ + old(state).clips@[i as int].name@
                },
                None => *final(state) == *old(state),
            },
            CardGridAction::ToggleSelection(id) => {
                &&& final(state).clips@ == toggled(old(state).clips@, id@)
                &&& final(state).active_clip_id == old(state).active_clip_id
                &&& clip_index(old(state).clips@, id@) is None ==> final(state).status_line
                    == old(state).status_line
                &&& clip_index(old(state).clips@, id@) is Some ==> final(state).status_line@
                    == selection_status(
                    selected_ids(final(state).clips@).len(),
                    final(state).clips@.len(),
                )
            },
        },
        final(state).source == old(state).source,
        final(state).identified_source == old(state).identified_source,
        final(state).ingest_busy == old(state).ingest_busy,
        final(state).probe_busy == old(state).probe_busy,
        final(state).library_tab == old(state).library_tab,
        final(state).archive_original == old(state).archive_original,
        final(state).ai_mining == old(state).ai_mining,
{
    match action {
        CardGridAction::Activate(id) => {
            match find_clip(&state.clips, id.as_str()) {
                Some(i) => {
                    proof {
                        crate::model::lemma_clip_index_bound(state.clips@, id@);
                    }
                    state.focus_clip(i);
                },
                None => {},
            }
        },
        CardGridAction::ToggleSelection(id) => state.toggle_clip_selection(id.as_str()),
    }
}

} // verus!
