//! The state the operator works with: the source browser, the identified
//! source and the clip cards with their selection.
use vstd::prelude::*;
use crate::fmt::{dec, opt_view, push_dec};
use crate::text::{
    append, append_str, chars_of, copy_chars, in_class, lower, lower_chars, starts_with,
    starts_with_str, str_eq, string_of, subrange, trim, trim_chars, trim_end_class,
    trim_end_in_class, trim_str, CharClass,
};

verus! {

/// One entry of the source browser: a directory or a root.
#[derive(Debug, Clone, PartialEq, Eq)]
pub struct FsEntry {
    pub name: String,
    pub path: String,
}

#[derive(Debug, Clone, Copy, PartialEq, Eq, Structural)]
pub enum SourceKind {
    Local,
    Lan,
    Intranet,
}

impl Default for SourceKind {
    fn default() -> (r: Self)
        ensures
            r == SourceKind::Local,
    {
        SourceKind::Local
    }
}

pub open spec fn kind_label(k: SourceKind) -> Seq<char> {
    match k {
        SourceKind::Local => "Local"@,
        SourceKind::Lan => "LAN"@,
        SourceKind::Intranet => "Intranet"@,
    }
}

impl SourceKind {
    pub fn label(self) -> (r: &'static str)
        ensures
            r@ == kind_label(self),
    {
        match self {
            SourceKind::Local => "Local",
            SourceKind::Lan => "LAN",
            SourceKind::Intranet => "Intranet",
        }
    }
}

/// Where the source browser is and what it shows.
#[derive(Debug, Clone)]
pub struct SourceBrowserState {
    pub kind: SourceKind,
    pub roots: bool,
    pub path: String,
    pub parent: Option<String>,
    pub entries: Vec<FsEntry>,
    pub selected_root_label: Option<String>,
    pub error: Option<String>,
    pub busy: bool,
}

/// A drive prefix `X:` with a one-byte drive character.
pub open spec fn has_drive_prefix(t: Seq<char>) -> bool {
    t.len() >= 2 && (t[0] as u32) < 128 && t[1] == ':'
}

/// Index of the last `\` or `/`.
pub open spec fn last_separator(s: Seq<char>) -> Option<nat>
    decreases s.len(),
{
    if s.len() == 0 {
        None
    } else if in_class(s.last(), CharClass::PathSeparator) {
        Some((s.len() - 1) as nat)
    } else {
        last_separator(s.drop_last())
    }
}

/// The parent shown for a local path: empty for a drive root, `X:\` for a
/// path directly under a drive, the text before the last separator
/// otherwise, and nothing for a path without separators.
pub open spec fn parent_of(path: Seq<char>) -> Option<Seq<char>> {
    let t = trim_end_class(path, CharClass::PathSeparator);
    if has_drive_prefix(t) && (t.len() == 2 || (t.len() == 3 && (t[2] as u32) < 128)) {
        Some(Seq::<char>::empty())
    } else {
        match last_separator(t) {
            None => None,
            Some(j) => if j <= 2 && has_drive_prefix(t) {
                Some(t.take(2) + seq!['\\'])
            } else {
                Some(t.take(j as int))
            },
        }
    }
}

proof fn lemma_last_separator_found(s: Seq<char>, i: int)
    requires
        0 <= i < s.len(),
        in_class(s[i], CharClass::PathSeparator),
        forall|j: int| i < j < s.len() ==> !in_class(s[j], CharClass::PathSeparator),
    ensures
        last_separator(s) == Some(i as nat),
    decreases s.len(),
{
    if !in_class(s.last(), CharClass::PathSeparator) {
        lemma_last_separator_found(s.drop_last(), i);
    }
}

proof fn lemma_last_separator_none(s: Seq<char>)
    requires
        forall|j: int| 0 <= j < s.len() ==> !in_class(s[j], CharClass::PathSeparator),
    ensures
        last_separator(s) == None::<nat>,
    decreases s.len(),
{
    if s.len() > 0 {
        lemma_last_separator_none(s.drop_last());
    }
}

/// Index of the last `\` or `/`.
pub fn rfind_separator(s: &[char]) -> (r: Option<usize>)
    ensures
        r matches Some(i) ==> last_separator(s@) == Some(i as nat) && i < s@.len(),
        r is None ==> last_separator(s@) is None,
{
    let mut j: usize = s.len();
    while j > 0
        invariant
            j <= s@.len(),
            forall|k: int| j <= k < s@.len() ==> !in_class(s@[k], CharClass::PathSeparator),
        decreases j,
    {
        if s[j - 1] == '\\' || s[j - 1] == '/' {
            proof {
                lemma_last_separator_found(s@, j - 1);
            }
            return Some(j - 1);
        }
        j = j - 1;
    }
    proof {
        lemma_last_separator_none(s@);
    }
    None
}

fn has_drive_prefix_chars(t: &[char]) -> (r: bool)
    ensures
        r == has_drive_prefix(t@),
{
    t.len() >= 2 && (t[0] as u32) < 128 && t[1] == ':'
}

/// The parent of a local path.
pub fn parent_path(path: &str) -> (r: Option<String>)
    ensures
        opt_view(&r) == parent_of(path@),
{
    let p = chars_of(path);
    let t = trim_end_in_class(&p, CharClass::PathSeparator);
    let drive = has_drive_prefix_chars(&t);
    if drive && (t.len() == 2 || (t.len() == 3 && (t[2] as u32) < 128)) {
        return Some(String::new());
    }
    match rfind_separator(&t) {
        None => None,
        Some(j) => {
            if j <= 2 && drive {
                let mut head = subrange(&t, 0, 2);
                head.push('\\');
                Some(string_of(&head))
            } else {
                let head = subrange(&t, 0, j);
                Some(string_of(&head))
            }
        },
    }
}

impl SourceBrowserState {
    pub fn initial() -> (r: Self)
        ensures
            r.kind == SourceKind::Local,
            r.roots,
            r.path@ == Seq::<char>::empty(),
            r.parent is None,
            r.entries@.len() == 0,
            r.selected_root_label is None,
            r.error is None,
            !r.busy,
    {
        SourceBrowserState {
            kind: SourceKind::Local,
            roots: true,
            path: String::new(),
            parent: None,
            entries: Vec::new(),
            selected_root_label: None,
            error: None,
            busy: false,
        }
    }

    /// Opens a local path; an empty path shows the roots.
    pub fn open_path(&mut self, path: String)
        ensures
            final(self).kind == SourceKind::Local,
            final(self).roots == (trim(path@).len() == 0),
            final(self).path@ == path@,
            opt_view(&final(self).parent) == (if trim(path@).len() == 0 {
                None
            } else {
                parent_of(path@)
            }),
            final(self).entries@.len() == 0,
            final(self).selected_root_label is None,
            final(self).error is None,
            final(self).busy == old(self).busy,
    {
        let t = trim_str(path.as_str());
        self.kind = SourceKind::Local;
        self.roots = t.len() == 0;
        self.parent = if t.len() == 0 {
            None
        } else {
            parent_path(path.as_str())
        };
        self.path = path;
        self.entries.clear();
        self.selected_root_label = None;
        self.error = None;
    }

    /// Opens a location typed or chosen by the operator: LAN and intranet
    /// transport URIs keep their kind, anything else is a local path.
    pub fn open_location(&mut self, location: String)
        ensures
            ({
                let t = trim(location@);
                if starts_with(t, "qnc+lan://"@) {
                    final(self).kind == SourceKind::Lan && !final(self).roots
                        && final(self).parent is None
                } else if starts_with(t, "qnc+intranet://"@) || starts_with(t, "qnc://"@) {
                    final(self).kind == SourceKind::Intranet && !final(self).roots
                        && final(self).parent is None
                } else {
                    final(self).kind == SourceKind::Local && final(self).roots == (t.len() == 0)
                        && opt_view(&final(self).parent) == (if t.len() == 0 {
                        None
                    } else {
                        parent_of(location@)
                    })
                }
            }),
            final(self).path@ == location@,
            final(self).entries@.len() == 0,
            final(self).selected_root_label is None,
            final(self).error is None,
            final(self).busy == old(self).busy,
    {
        let t = trim_str(location.as_str());
        if starts_with_str(&t, "qnc+lan://") {
            self.open_transport_location(SourceKind::Lan, location);
        } else if starts_with_str(&t, "qnc+intranet://") || starts_with_str(&t, "qnc://") {
            self.open_transport_location(SourceKind::Intranet, location);
        } else {
            self.open_path(location);
        }
    }

    /// Shows a transport location of `kind`; it has no parent and no entries.
    pub fn open_transport_location(&mut self, kind: SourceKind, location: String)
        ensures
            final(self).kind == kind,
            !final(self).roots,
            final(self).path@ == location@,
            final(self).parent is None,
            final(self).entries@.len() == 0,
            final(self).selected_root_label is None,
            final(self).error is None,
            final(self).busy == old(self).busy,
    {
        self.kind = kind;
        self.roots = false;
        self.path = location;
        self.parent = None;
        self.entries.clear();
        self.selected_root_label = None;
        self.error = None;
    }
}

#[derive(Debug, Clone, Copy, PartialEq, Eq, Structural)]
pub enum IngestLibraryTab {
    All,
    Virtual,
}

impl Default for IngestLibraryTab {
    fn default() -> (r: Self)
        ensures
            r == IngestLibraryTab::All,
    {
        IngestLibraryTab::All
    }
}

/// What the shell shows of an identified source.
#[derive(Debug, Clone, PartialEq, Eq)]
pub struct IdentifiedSourceSummary {
    pub operator_location: String,
    pub source_identity: String,
    pub source_kind: String,
    pub display_name: String,
    pub transport_uri: String,
    pub content_database_uri: String,
    pub identity_basis: String,
    pub identity_label: String,
    pub identity_value: String,
    pub confidence: String,
    pub seen_at: String,
}

/// A clip as the library shows it. The duration in seconds is an `f64`;
/// the card keeps its bit pattern (`f64::to_bits`), which callers convert.
#[derive(Debug, Clone, PartialEq, Eq)]
pub struct ClipCard {
    pub id: String,
    pub name: String,
    pub duration_bits: u64,
    pub ingest_status: String,
    pub selected: bool,
    pub source_identity: String,
    pub clip_fingerprint: String,
    pub clip_created_at: String,
    pub poster_relative_path: Option<String>,
    pub poster_source: Option<String>,
    pub poster_access_path: Option<String>,
}

impl ClipCard {
    /// The same card with `selected` set as given.
    pub fn with_selected(&self, selected: bool) -> (r: ClipCard)
        ensures
            r == (ClipCard { selected, ..*self }),
    {
        ClipCard {
            id: self.id.clone(),
            name: self.name.clone(),
            duration_bits: self.duration_bits,
            ingest_status: self.ingest_status.clone(),
            selected,
            source_identity: self.source_identity.clone(),
            clip_fingerprint: self.clip_fingerprint.clone(),
            clip_created_at: self.clip_created_at.clone(),
            poster_relative_path: match &self.poster_relative_path {
                Some(p) => Some(p.clone()),
                None => None,
            },
            poster_source: match &self.poster_source {
                Some(p) => Some(p.clone()),
                None => None,
            },
            poster_access_path: match &self.poster_access_path {
                Some(p) => Some(p.clone()),
                None => None,
            },
        }
    }
}

/// Index of the first clip with this id.
pub open spec fn clip_index(clips: Seq<ClipCard>, id: Seq<char>) -> Option<nat>
    decreases clips.len(),
{
    if clips.len() == 0 {
        None
    } else if clips[0].id@ == id {
        Some(0)
    } else {
        match clip_index(clips.drop_first(), id) {
            Some(i) => Some(i + 1),
            None => None,
        }
    }
}

/// The ids of the selected clips, in order.
pub open spec fn selected_ids(clips: Seq<ClipCard>) -> Seq<Seq<char>>
    decreases clips.len(),
{
    if clips.len() == 0 {
        Seq::empty()
    } else if clips.last().selected {
        selected_ids(clips.drop_last()).push(clips.last().id@)
    } else {
        selected_ids(clips.drop_last())
    }
}

/// An ingest status that counts as imported.
pub open spec fn is_imported_status(status: Seq<char>) -> bool {
    lower(trim(status)) == "imported"@ || lower(trim(status)) == "done"@
}

pub open spec fn imported_count(clips: Seq<ClipCard>) -> nat
    decreases clips.len(),
{
    if clips.len() == 0 {
        0
    } else {
        imported_count(clips.drop_last()) + if is_imported_status(clips.last().ingest_status@) {
            1nat
        } else {
            0nat
        }
    }
}

/// The clips with `selected` set for exactly the ids in `ids`.
pub open spec fn with_selection(clips: Seq<ClipCard>, ids: Seq<Seq<char>>) -> Seq<ClipCard> {
    clips.map_values(|c: ClipCard| ClipCard { selected: ids.contains(c.id@), ..c })
}

/// The active clip after the clips are replaced: the same id while a clip
/// has it, else the first clip's.
pub open spec fn kept_active(active: Option<Seq<char>>, clips: Seq<ClipCard>) -> Option<Seq<char>> {
    match active {
        Some(id) => if clip_index(clips, id) is Some {
            Some(id)
        } else if clips.len() > 0 {
            Some(clips[0].id@)
        } else {
            None
        },
        None => if clips.len() > 0 {
            Some(clips[0].id@)
        } else {
            None
        },
    }
}

/// The clips, all with `selected` set to `value`.
pub open spec fn all_selected_as(clips: Seq<ClipCard>, value: bool) -> Seq<ClipCard> {
    clips.map_values(|c: ClipCard| ClipCard { selected: value, ..c })
}

/// The clips with the selection of the first clip with this id flipped.
pub open spec fn toggled(clips: Seq<ClipCard>, id: Seq<char>) -> Seq<ClipCard> {
    match clip_index(clips, id) {
        Some(i) => clips.update(
            i as int,
            ClipCard { selected: !clips[i as int].selected, ..clips[i as int] },
        ),
        None => clips,
    }
}

pub open spec fn selection_status(count: nat, total: nat) -> Seq<char> {
    "Odabrano: "@ + dec(count) + seq!['/'] + dec(total)
}

proof fn lemma_clip_index_found(clips: Seq<ClipCard>, id: Seq<char>, i: int)
    requires
        0 <= i < clips.len(),
        clips[i].id@ == id,
        forall|j: int| 0 <= j < i ==> clips[j].id@ != id,
    ensures
        clip_index(clips, id) == Some(i as nat),
    decreases i,
{
    if i > 0 {
        lemma_clip_index_found(clips.drop_first(), id, i - 1);
    }
}

proof fn lemma_clip_index_none(clips: Seq<ClipCard>, id: Seq<char>)
    requires
        forall|j: int| 0 <= j < clips.len() ==> clips[j].id@ != id,
    ensures
        clip_index(clips, id) == None::<nat>,
    decreases clips.len(),
{
    if clips.len() > 0 {
        lemma_clip_index_none(clips.drop_first(), id);
    }
}

/// Index of the first clip with id `id`.
pub fn find_clip(clips: &Vec<ClipCard>, id: &str) -> (r: Option<usize>)
    ensures
        r matches Some(i) ==> clip_index(clips@, id@) == Some(i as nat) && i < clips@.len(),
        r is None ==> clip_index(clips@, id@) is None,
{
    let mut i: usize = 0;
    while i < clips.len()
        invariant
            i <= clips@.len(),
            forall|j: int| 0 <= j < i ==> clips@[j].id@ != id@,
        decreases clips@.len() - i,
    {
        if str_eq(clips[i].id.as_str(), id) {
            proof {
                lemma_clip_index_found(clips@, id@, i as int);
            }
            return Some(i);
        }
        i = i + 1;
    }
    proof {
        lemma_clip_index_none(clips@, id@);
    }
    None
}

pub open spec fn not_active(clips: Seq<ClipCard>, active: Option<Seq<char>>) -> spec_fn(int) -> bool {
    |i: int| active != Some(clips[i].id@)
}

pub open spec fn indices(n: nat) -> Seq<int> {
    Seq::new(n, |i: int| i)
}

/// The order in which the clips' posters load: the active clip first (the
/// first clip with the active id), then every clip whose id is not the
/// active one, as they come.
pub open spec fn poster_order(clips: Seq<ClipCard>, active: Option<Seq<char>>) -> Seq<int> {
    let rest = indices(clips.len()).filter(not_active(clips, active));
    match active {
        Some(a) => match clip_index(clips, a) {
            Some(k) => seq![k as int] + rest,
            None => rest,
        },
        None => rest,
    }
}

pub open spec fn as_ints(v: Seq<usize>) -> Seq<int> {
    v.map_values(|i: usize| i as int)
}

/// The indices of the clips in the order their posters load.
pub fn prioritized_poster_clips(clips: &Vec<ClipCard>, active_id: &Option<String>) -> (r: Vec<
    usize,
>)
    ensures
        as_ints(r@) == poster_order(clips@, opt_view(active_id)),
{
    let ghost active = opt_view(active_id);
    let ghost pred = not_active(clips@, active);
    let mut out: Vec<usize> = Vec::new();
    if let Some(a) = active_id {
        if let Some(k) = find_clip(clips, a.as_str()) {
            out.push(k);
        }
    }
    let ghost head = as_ints(out@);
    proof {
        reveal(Seq::filter);
        assert(indices(0).filter(pred) =~= Seq::<int>::empty());
        assert(as_ints(out@) =~= head + indices(0).filter(pred));
    }
    let mut i: usize = 0;
    while i < clips.len()
        invariant
            i <= clips@.len(),
            active == opt_view(active_id),
            pred == not_active(clips@, active),
            head == (match active {
                Some(a) => match clip_index(clips@, a) {
                    Some(k) => seq![k as int],
                    None => Seq::<int>::empty(),
                },
                None => Seq::<int>::empty(),
            }),
            as_ints(out@) == head + indices(i as nat).filter(pred),
        decreases clips@.len() - i,
    {
        let keep = match active_id {
            Some(a) => !str_eq(clips[i].id.as_str(), a.as_str()),
            None => true,
        };
        proof {
            reveal(Seq::filter);
            assert(indices((i + 1) as nat).drop_last() =~= indices(i as nat));
            assert(indices((i + 1) as nat).last() == i as int);
            assert(pred(i as int) == keep);
        }
        let ghost before = out@;
        if keep {
            out.push(i);
            assert(as_ints(out@) =~= as_ints(before).push(i as int));
        }
        i = i + 1;
    }
    assert(indices(clips@.len()) =~= indices(i as nat));
    out
}

/// The compact duration of a whole number of seconds: `m:ss`, or `h:mm:ss`
/// from one hour on.
pub open spec fn duration_text_of(total: nat) -> Seq<char> {
    let h = total / 3600;
    let m = (total % 3600) / 60;
    let s = total % 60;
    if h > 0 {
        dec(h) + seq![':'] + crate::fmt::dec_pad(m, 2) + seq![':'] + crate::fmt::dec_pad(s, 2)
    } else {
        dec(m) + seq![':'] + crate::fmt::dec_pad(s, 2)
    }
}

/// The label of a clip's duration once it is rounded to whole seconds.
pub fn duration_text(total_seconds: u64) -> (r: String)
    ensures
        r@ == duration_text_of(total_seconds as nat),
{
    let h = total_seconds / 3600;
    let m = (total_seconds % 3600) / 60;
    let s = total_seconds % 60;
    let mut out: Vec<char> = Vec::new();
    if h > 0 {
        push_dec(&mut out, h);
        out.push(':');
        crate::fmt::push_dec_pad(&mut out, m, 2);
    } else {
        push_dec(&mut out, m);
    }
    out.push(':');
    crate::fmt::push_dec_pad(&mut out, s, 2);
    string_of(&out)
}

/// Whether `ids` holds `id`.
pub fn contains_id(ids: &Vec<String>, id: &str) -> (r: bool)
    ensures
        r == ids@.map_values(|s: String| s@).contains(id@),
{
    let ghost views = ids@.map_values(|s: String| s@);
    let mut i: usize = 0;
    while i < ids.len()
        invariant
            views == ids@.map_values(|s: String| s@),
            i <= ids@.len(),
            forall|j: int| 0 <= j < i ==> views[j] != id@,
        decreases ids@.len() - i,
    {
        if str_eq(ids[i].as_str(), id) {
            assert(views[i as int] == id@);
            return true;
        }
        i = i + 1;
    }
    false
}

fn status_of_selection(count: usize, total: usize) -> (r: String)
    ensures
        r@ == selection_status(count as nat, total as nat),
{
    let mut out = chars_of("Odabrano: ");
    push_dec(&mut out, count as u64);
    out.push('/');
    push_dec(&mut out, total as u64);
    assert(out@ =~= selection_status(count as nat, total as nat));
    string_of(&out)
}

fn count_selected(clips: &Vec<ClipCard>) -> (r: usize)
    ensures
        r == selected_ids(clips@).len(),
{
    let mut n: usize = 0;
    let mut i: usize = 0;
    while i < clips.len()
        invariant
            i <= clips@.len(),
            n == selected_ids(clips@.take(i as int)).len(),
            n <= i,
        decreases clips@.len() - i,
    {
        proof {
            assert(clips@.take(i + 1).drop_last() =~= clips@.take(i as int));
        }
        if clips[i].selected {
            n = n + 1;
        }
        i = i + 1;
    }
    assert(clips@.take(clips@.len() as int) =~= clips@);
    n
}

/// Everything the ingest view shows and edits. The theme and the expanded
/// audio lane belong to the window's drawing code and are kept there.
#[derive(Debug, Clone)]
pub struct AppState {
    pub source: SourceBrowserState,
    pub identified_source: Option<IdentifiedSourceSummary>,
    pub clips: Vec<ClipCard>,
    pub active_clip_id: Option<String>,
    pub library_tab: IngestLibraryTab,
    pub archive_original: bool,
    pub ai_mining: bool,
    pub ingest_busy: bool,
    pub probe_busy: bool,
    pub status_line: String,
}

impl AppState {
    pub fn new() -> (r: Self)
        ensures
            r.clips@.len() == 0,
            r.active_clip_id is None,
            r.identified_source is None,
            r.source.entries@.len() == 0,
            r.source.roots,
            r.library_tab == IngestLibraryTab::All,
            !r.archive_original && !r.ai_mining && !r.ingest_busy && !r.probe_busy,
            r.status_line@ == "Odaberi izvor za ingest."@,
    {
        AppState {
            source: SourceBrowserState::initial(),
            identified_source: None,
            clips: Vec::new(),
            active_clip_id: None,
            library_tab: IngestLibraryTab::All,
            archive_original: false,
            ai_mining: false,
            ingest_busy: false,
            probe_busy: false,
            status_line: "Odaberi izvor za ingest.".to_owned(),
        }
    }

    /// The first clip whose id is the active id.
    pub fn active_clip(&self) -> (r: Option<&ClipCard>)
        ensures
            match opt_view(&self.active_clip_id) {
                None => r is None,
                Some(id) => match clip_index(self.clips@, id) {
                    Some(i) => r == Some(&self.clips@[i as int]),
                    None => r is None,
                },
            },
    {
        match &self.active_clip_id {
            None => None,
            Some(id) => match find_clip(&self.clips, id.as_str()) {
                Some(i) => Some(&self.clips[i]),
                None => None,
            },
        }
    }

    /// Makes the clip at `index` the active one.
    pub fn focus_clip(&mut self, index: usize)
        ensures
            final(self).clips == old(self).clips,
            index < old(self).clips@.len() ==> opt_view(&final(self).active_clip_id) == Some(
                old(self).clips@[index as int].id@,
            ) && final(self).status_line@ == "Klip: "@ + old(self).clips@[index as int].name@,
            index >= old(self).clips@.len() ==> final(self).active_clip_id == old(
                self,
            ).active_clip_id && final(self).status_line == old(self).status_line,
            final(self).source == old(self).source,
            final(self).identified_source == old(self).identified_source,
            final(self).library_tab == old(self).library_tab,
            final(self).archive_original == old(self).archive_original,
            final(self).ai_mining == old(self).ai_mining,
            final(self).ingest_busy == old(self).ingest_busy,
            final(self).probe_busy == old(self).probe_busy,
    {
        if index < self.clips.len() {
            let id = self.clips[index].id.clone();
            let mut status = chars_of("Klip: ");
            append_str(&mut status, self.clips[index].name.as_str());
            self.active_clip_id = Some(id);
            self.status_line = string_of(&status);
        }
    }

    pub fn selected_clip_count(&self) -> (r: usize)
        ensures
            r == selected_ids(self.clips@).len(),
    {
        count_selected(&self.clips)
    }

    /// The ids of the selected clips, in order.
    pub fn selected_clip_ids(&self) -> (r: Vec<String>)
        ensures
            r@.map_values(|s: String| s@) == selected_ids(self.clips@),
    {
        let mut r: Vec<String> = Vec::new();
        let mut i: usize = 0;
        while i < self.clips.len()
            invariant
                i <= self.clips@.len(),
                r@.map_values(|s: String| s@) == selected_ids(self.clips@.take(i as int)),
            decreases self.clips@.len() - i,
        {
            proof {
                assert(self.clips@.take(i + 1).drop_last() =~= self.clips@.take(i as int));
            }
            let ghost before = r@;
            if self.clips[i].selected {
                r.push(self.clips[i].id.clone());
                assert(r@.map_values(|s: String| s@) =~= before.map_values(|s: String| s@).push(
                    self.clips@[i as int].id@,
                ));
            }
            i = i + 1;
        }
        assert(self.clips@.take(self.clips@.len() as int) =~= self.clips@);
        r
    }

    /// Replaces the clips, keeping each id's selection and the active clip
    /// when it is still there (else the first clip becomes active).
    pub fn replace_clips_preserving_selection(&mut self, clips: Vec<ClipCard>)
        ensures
            final(self).clips@ == with_selection(clips@, selected_ids(old(self).clips@)),
            opt_view(&final(self).active_clip_id) == kept_active(
                opt_view(&old(self).active_clip_id),
                clips@,
            ),
            final(self).status_line == old(self).status_line,
            final(self).source == old(self).source,
            final(self).identified_source == old(self).identified_source,
            final(self).library_tab == old(self).library_tab,
            final(self).archive_original == old(self).archive_original,
            final(self).ai_mining == old(self).ai_mining,
            final(self).ingest_busy == old(self).ingest_busy,
            final(self).probe_busy == old(self).probe_busy,
    {
        let selected = self.selected_clip_ids();
        let ghost ids = selected_ids(old(self).clips@);
        let mut out: Vec<ClipCard> = Vec::new();
        let mut i: usize = 0;
        while i < clips.len()
            invariant
                i <= clips@.len(),
                selected@.map_values(|s: String| s@) == ids,
                out@ == with_selection(clips@.take(i as int), ids),
            decreases clips@.len() - i,
        {
            let keep = contains_id(&selected, clips[i].id.as_str());
            let c = clips[i].with_selected(keep);
            let ghost before = out@;
            out.push(c);
            i = i + 1;
            assert(out@ =~= with_selection(clips@.take(i as int), ids));
        }
        assert(clips@.take(clips@.len() as int) =~= clips@);
        let active: Option<String> = match &self.active_clip_id {
            Some(id) => if find_clip(&clips, id.as_str()).is_some() {
                Some(id.clone())
            } else if clips.len() > 0 {
                Some(clips[0].id.clone())
            } else {
                None
            },
            None => if clips.len() > 0 {
                Some(clips[0].id.clone())
            } else {
                None
            },
        };
        self.clips = out;
        self.active_clip_id = active;
    }

    /// How many clips are imported or done.
    pub fn imported_clip_count(&self) -> (r: usize)
        ensures
            r == imported_count(self.clips@),
    {
        let mut n: usize = 0;
        let mut i: usize = 0;
        while i < self.clips.len()
            invariant
                i <= self.clips@.len(),
                n == imported_count(self.clips@.take(i as int)),
                n <= i,
            decreases self.clips@.len() - i,
        {
            proof {
                assert(self.clips@.take(i + 1).drop_last() =~= self.clips@.take(i as int));
            }
            let s = lower_chars(&trim_chars(&chars_of(self.clips[i].ingest_status.as_str())));
            let im = chars_of("imported");
            let dn = chars_of("done");
            if crate::text::chars_eq(&s, &im) || crate::text::chars_eq(&s, &dn) {
                n = n + 1;
            }
            i = i + 1;
        }
        assert(self.clips@.take(self.clips@.len() as int) =~= self.clips@);
        n
    }

    fn set_all_selected(&mut self, value: bool)
        ensures
            final(self).clips@ == all_selected_as(old(self).clips@, value),
            final(self).active_clip_id == old(self).active_clip_id,
            final(self).status_line == old(self).status_line,
    {
        let mut out: Vec<ClipCard> = Vec::new();
        let mut i: usize = 0;
        while i < self.clips.len()
            invariant
                i <= self.clips@.len(),
                out@ == all_selected_as(self.clips@.take(i as int), value),
            decreases self.clips@.len() - i,
        {
            let c = self.clips[i].with_selected(value);
            out.push(c);
            i = i + 1;
            assert(out@ =~= all_selected_as(self.clips@.take(i as int), value));
        }
        assert(self.clips@.take(self.clips@.len() as int) =~= self.clips@);
        self.clips = out;
    }

    /// Selects every clip.
    pub fn select_all_clips(&mut self)
        ensures
            final(self).clips@ == all_selected_as(old(self).clips@, true),
            final(self).active_clip_id == old(self).active_clip_id,
            final(self).status_line@ == selection_status(
                selected_ids(final(self).clips@).len(),
                final(self).clips@.len(),
            ),
    {
        self.set_all_selected(true);
        let n = self.selected_clip_count();
        self.status_line = status_of_selection(n, self.clips.len());
    }

    /// Clears the selection.
    pub fn clear_clip_selection(&mut self)
        ensures
            final(self).clips@ == all_selected_as(old(self).clips@, false),
            final(self).active_clip_id == old(self).active_clip_id,
            final(self).status_line@ == "Odabir očišćen."@,
    {
        self.set_all_selected(false);
        self.status_line = "Odabir očišćen.".to_owned();
    }

    /// Flips the selection of the first clip with this id.
    pub fn toggle_clip_selection(&mut self, clip_id: &str)
        ensures
            final(self).clips@ == toggled(old(self).clips@, clip_id@),
            match clip_index(old(self).clips@, clip_id@) {
                Some(i) => final(self).status_line@ == selection_status(
                    selected_ids(final(self).clips@).len(),
                    final(self).clips@.len(),
                ),
                None => final(self).status_line == old(self).status_line,
            },
            final(self).active_clip_id == old(self).active_clip_id,
            final(self).source == old(self).source,
            final(self).identified_source == old(self).identified_source,
            final(self).library_tab == old(self).library_tab,
            final(self).archive_original == old(self).archive_original,
            final(self).ai_mining == old(self).ai_mining,
            final(self).ingest_busy == old(self).ingest_busy,
            final(self).probe_busy == old(self).probe_busy,
    {
        match find_clip(&self.clips, clip_id) {
            None => {},
            Some(i) => {
                let flipped = !self.clips[i].selected;
                let c = self.clips[i].with_selected(flipped);
                self.clips.set(i, c);
                let n = self.selected_clip_count();
                self.status_line = status_of_selection(n, self.clips.len());
            },
        }
    }
}

// ---------------------------------------------------------------------------
// Laws of the selection
// ---------------------------------------------------------------------------

proof fn lemma_clip_index_same_ids(a: Seq<ClipCard>, b: Seq<ClipCard>, id: Seq<char>)
    requires
        a.len() == b.len(),
        forall|k: int| 0 <= k < a.len() ==> (#[trigger] a[k]).id == b[k].id,
    ensures
        clip_index(a, id) == clip_index(b, id),
    decreases a.len(),
{
    if a.len() > 0 {
        assert(a[0].id == b[0].id);
        assert forall|k: int| 0 <= k < a.drop_first().len() implies (
        #[trigger] a.drop_first()[k]).id == b.drop_first()[k].id by {
            assert(a.drop_first()[k] == a[k + 1]);
            assert(b.drop_first()[k] == b[k + 1]);
        }
        lemma_clip_index_same_ids(a.drop_first(), b.drop_first(), id);
    }
}

/// The index of a clip by id is in range and the clip there has the id.
pub proof fn lemma_clip_index_bound(clips: Seq<ClipCard>, id: Seq<char>)
    ensures
        clip_index(clips, id) matches Some(i) ==> i < clips.len() && clips[i as int].id@ == id,
    decreases clips.len(),
{
    if clips.len() > 0 {
        lemma_clip_index_bound(clips.drop_first(), id);
        match clip_index(clips.drop_first(), id) {
            Some(j) => {
                assert(clips.drop_first()[j as int] == clips[j as int + 1]);
            },
            None => {},
        }
    }
}

/// Toggling the same clip twice restores the selection.
pub proof fn lemma_toggle_twice_restores(clips: Seq<ClipCard>, id: Seq<char>)
    ensures
        toggled(toggled(clips, id), id) == clips,
{
    lemma_clip_index_bound(clips, id);
    let once = toggled(clips, id);
    assert forall|k: int| 0 <= k < clips.len() implies (#[trigger] clips[k]).id == once[k].id by {}
    lemma_clip_index_same_ids(clips, once, id);
    if let Some(i) = clip_index(clips, id) {
        assert(toggled(once, id) =~= clips);
    }
}

/// Selecting all clips selects every one of them; clearing the selection
/// leaves none selected.
pub proof fn lemma_select_all_and_clear(clips: Seq<ClipCard>)
    ensures
        selected_ids(all_selected_as(clips, true)).len() == clips.len(),
        selected_ids(all_selected_as(clips, false)).len() == 0,
    decreases clips.len(),
{
    if clips.len() > 0 {
        lemma_select_all_and_clear(clips.drop_last());
        assert(all_selected_as(clips, true).drop_last() =~= all_selected_as(
            clips.drop_last(),
            true,
        ));
        assert(all_selected_as(clips, false).drop_last() =~= all_selected_as(
            clips.drop_last(),
            false,
        ));
    }
}

/// Replacing the clips keeps the selection of every id that was selected
/// and is still there, and selects no other clip.
pub proof fn lemma_replace_keeps_selection(old_clips: Seq<ClipCard>, new_clips: Seq<ClipCard>, k: int)
    requires
        0 <= k < new_clips.len(),
    ensures
        with_selection(new_clips, selected_ids(old_clips))[k].selected == selected_ids(
            old_clips,
        ).contains(new_clips[k].id@),
        with_selection(new_clips, selected_ids(old_clips))[k].id == new_clips[k].id,
{
}

} // verus!
