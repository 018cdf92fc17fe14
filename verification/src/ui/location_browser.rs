//! What the location browser shows: labels of sources and roots, the
//! clickable breadcrumb chain of a path, and shortened paths.
use vstd::prelude::*;
use crate::model::{FsEntry, SourceBrowserState, SourceKind};
use crate::text::{
    append, append_str, chars_eq, chars_of, copy_chars, drop_first_part, eq_pred, join,
    join_chars, nonempty, nonempty_parts, split, split_char, split_in, split_in_class, starts_with,
    starts_with_chars, starts_with_str, string_of, subrange, texts, trim, trim_chars,
    trim_class, trim_end_class, trim_end_in_class, trim_in_class, trim_start_by,
    trim_start_char, trim_str, words, words_of, CharClass,
};

verus! {

/// What the operator asked the browser to do.
#[derive(Debug, Clone, PartialEq, Eq)]
pub enum LocationBrowserAction {
    Idle,
    SelectKind(SourceKind),
    OpenPath(String),
    Confirm,
    Cancel,
}

pub open spec fn transport_label_text(kind: SourceKind) -> Seq<char> {
    match kind {
        SourceKind::Lan => "LAN:"@,
        SourceKind::Intranet => "Intranet:"@,
        SourceKind::Local => "Disk:"@,
    }
}

/// The label in front of a transport location.
pub fn transport_label(kind: SourceKind) -> (r: &'static str)
    ensures
        r@ == transport_label_text(kind),
{
    match kind {
        SourceKind::Lan => "LAN:",
        SourceKind::Intranet => "Intranet:",
        SourceKind::Local => "Disk:",
    }
}

/// A location as typed, without surrounding white space; transport URIs are
/// kept as they are.
pub fn clean_location_path(path: &str) -> (r: String)
    ensures
        r@ == trim(path@),
{
    let t = trim_chars(&chars_of(path));
    string_of(&t)
}

/// The last component of a path, separators `\` and `/`.
pub open spec fn leaf_of(path: Seq<char>) -> Seq<char> {
    let t = trim_end_class(trim(path), CharClass::PathSeparator);
    let last = split_in(t, CharClass::PathSeparator).last();
    if last.len() > 0 {
        last
    } else {
        t
    }
}

proof fn lemma_split_in_nonempty(s: Seq<char>, k: CharClass)
    ensures
        split_in(s, k).len() >= 1,
{
}

pub fn path_leaf(path: &str) -> (r: String)
    ensures
        r@ == leaf_of(path@),
{
    let clean = trim_chars(&chars_of(path));
    let t = trim_end_in_class(&clean, CharClass::PathSeparator);
    let pieces = split_in_class(&t, CharClass::PathSeparator);
    proof {
        lemma_split_in_nonempty(t@, CharClass::PathSeparator);
    }
    let n = pieces.len();
    assert(texts(pieces@)[n - 1] == pieces@[n - 1]@);
    if pieces[n - 1].len() > 0 {
        string_of(&pieces[n - 1])
    } else {
        string_of(&t)
    }
}

pub open spec fn entry_display(entry: FsEntry, roots: bool) -> Seq<char> {
    if trim(entry.name@).len() > 0 {
        trim(entry.name@)
    } else if roots {
        trim(entry.path@)
    } else {
        leaf_of(entry.path@)
    }
}

/// The name shown for a browser entry.
pub fn entry_display_name(entry: &FsEntry, roots: bool) -> (r: String)
    ensures
        r@ == entry_display(*entry, roots),
{
    let name = trim_chars(&chars_of(entry.name.as_str()));
    if name.len() > 0 {
        return string_of(&name);
    }
    if roots {
        clean_location_path(entry.path.as_str())
    } else {
        path_leaf(entry.path.as_str())
    }
}

/// Paths longer than 42 characters keep their last 36, after `...`.
pub open spec fn short_path_text(path: Seq<char>) -> Seq<char> {
    let c = trim(path);
    if c.len() <= 42 {
        c
    } else {
        "..."@ + c.skip(c.len() - 36)
    }
}

pub fn short_path(path: &str) -> (r: String)
    ensures
        r@ == short_path_text(path@),
{
    let c = trim_chars(&chars_of(path));
    if c.len() <= 42 {
        return string_of(&c);
    }
    let mut out = chars_of("...");
    let tail = subrange(&c, c.len() - 36, c.len());
    append(&mut out, &tail);
    assert(tail@ =~= c@.skip(c@.len() - 36));
    string_of(&out)
}

pub open spec fn location_label_text(state: SourceBrowserState) -> Seq<char> {
    match state.kind {
        SourceKind::Local => if state.roots {
            "Diskovi"@
        } else if trim(state.path@).len() > 0 {
            short_path_text(state.path@)
        } else {
            "-"@
        },
        SourceKind::Lan => "LAN"@,
        SourceKind::Intranet => "Intranet"@,
    }
}

/// The label of the current location.
pub fn location_label(state: &SourceBrowserState) -> (r: String)
    ensures
        r@ == location_label_text(*state),
{
    match state.kind {
        SourceKind::Local => {
            if state.roots {
                "Diskovi".to_owned()
            } else if trim_chars(&chars_of(state.path.as_str())).len() > 0 {
                short_path(state.path.as_str())
            } else {
                "-".to_owned()
            }
        },
        SourceKind::Lan => "LAN".to_owned(),
        SourceKind::Intranet => "Intranet".to_owned(),
    }
}

pub open spec fn root_disk_label_text(entry: FsEntry) -> Seq<char> {
    if trim(entry.name@).len() == 0 {
        trim(entry.path@)
    } else {
        trim(entry.name@)
    }
}

/// The label of a root disk: its display name, or its path.
pub fn root_disk_label(entry: &FsEntry) -> (r: String)
    ensures
        r@ == root_disk_label_text(*entry),
{
    let path = clean_location_path(entry.path.as_str());
    let name = clean_location_path(entry.name.as_str());
    if name.as_str().unicode_len() == 0 {
        return path;
    }
    name
}

/// `X:\` or `X:/` at the start, with a one-byte drive character.
pub open spec fn is_drive_rooted(p: Seq<char>) -> bool {
    p.len() >= 3 && (p[0] as u32) < 128 && p[1] == ':' && (p[2] == '\\' || p[2] == '/')
}

pub fn is_windows_drive_rooted(path: &str) -> (r: bool)
    ensures
        r == is_drive_rooted(path@),
{
    let p = chars_of(path);
    p.len() >= 3 && (p[0] as u32) < 128 && p[1] == ':' && (p[2] == '\\' || p[2] == '/')
}

/// The three columns of a root disk row.
#[derive(Debug, Clone, PartialEq, Eq)]
pub struct RootDiskColumns {
    pub drive: String,
    pub serial: String,
    pub name: String,
}

pub open spec fn disk_drive_text(path: Seq<char>, display: Seq<char>) -> Seq<char> {
    if is_drive_rooted(path) {
        path.take(2)
    } else if path == "/"@ {
        "/"@
    } else if trim(display).len() > 0 {
        if words(display).len() > 0 {
            words(display)[0]
        } else {
            trim(display)
        }
    } else {
        short_path_text(path)
    }
}

pub open spec fn disk_rest_text(display: Seq<char>, drive: Seq<char>) -> Seq<char> {
    trim(
        if starts_with(display, drive) {
            display.skip(drive.len() as int)
        } else {
            display
        },
    )
}

/// Drive, serial and name of a root disk: the drive from the path, then the
/// first word after it as the serial and the remaining words as the name.
pub open spec fn disk_columns(entry: FsEntry) -> (Seq<char>, Seq<char>, Seq<char>) {
    let path = trim(entry.path@);
    let display = root_disk_label_text(entry);
    let drive = disk_drive_text(path, display);
    let w = words(disk_rest_text(display, drive));
    if w.len() > 0 {
        (drive, w[0], join(w.skip(1), seq![' ']))
    } else {
        (drive, Seq::<char>::empty(), Seq::<char>::empty())
    }
}

pub fn root_disk_columns(entry: &FsEntry) -> (r: RootDiskColumns)
    ensures
        (r.drive@, r.serial@, r.name@) == disk_columns(*entry),
{
    let path = trim_chars(&chars_of(entry.path.as_str()));
    let display_s = root_disk_label(entry);
    let display = chars_of(display_s.as_str());
    let slash = vec!['/'];
    let drive: Vec<char> = if path.len() >= 3 && (path[0] as u32) < 128 && path[1] == ':' && (
    path[2] == '\\' || path[2] == '/') {
        subrange(&path, 0, 2)
    } else if chars_eq(&path, &slash) {
        proof {
            reveal_strlit("/");
        }
        assert(slash@ =~= "/"@);
        slash
    } else if trim_chars(&display).len() > 0 {
        proof {
            reveal_strlit("/");
        }
        assert(slash@ =~= "/"@);
        let w = words_of(&display);
        if w.len() > 0 {
            assert(texts(w@)[0] == w@[0]@);
            copy_chars(&w[0])
        } else {
            trim_chars(&display)
        }
    } else {
        proof {
            reveal_strlit("/");
        }
        assert(slash@ =~= "/"@);
        let s = short_path(string_of(&path).as_str());
        chars_of(s.as_str())
    };
    let rest0 = if starts_with_chars(&display, &drive) {
        subrange(&display, drive.len(), display.len())
    } else {
        copy_chars(&display)
    };
    assert(starts_with(display@, drive@) ==> rest0@ =~= display@.skip(drive@.len() as int));
    let rest = trim_chars(&rest0);
    let w = words_of(&rest);
    if w.len() > 0 {
        assert(texts(w@)[0] == w@[0]@);
        let tail = drop_first_part(&w);
        let sp = vec![' '];
        let name = join_chars(&tail, &sp);
        assert(sp@ =~= seq![' ']);
        RootDiskColumns { drive: string_of(&drive), serial: string_of(&w[0]), name: string_of(&name) }
    } else {
        RootDiskColumns { drive: string_of(&drive), serial: String::new(), name: String::new() }
    }
}

// ---------------------------------------------------------------------------
// Breadcrumbs
// ---------------------------------------------------------------------------

/// One crumb per part: its label, and the path up to and including it.
pub open spec fn crumbs_from(parts: Seq<Seq<char>>, head: Seq<char>, sep: Seq<char>) -> Seq<
    (Seq<char>, Seq<char>),
> {
    Seq::new(parts.len(), |k: int| (parts[k], head + join(parts.take(k + 1), sep)))
}

/// Index of the first `://`.
pub open spec fn scheme_sep_index(s: Seq<char>) -> Option<nat>
    decreases s.len(),
{
    if s.len() < 3 {
        None
    } else if s.take(3) == "://"@ {
        Some(0)
    } else {
        match scheme_sep_index(s.drop_first()) {
            Some(i) => Some(i + 1),
            None => None,
        }
    }
}

/// The crumbs of a QNC transport URI: the scheme, then each path part.
pub open spec fn qnc_crumbs(uri: Seq<char>) -> Seq<(Seq<char>, Seq<char>)> {
    match scheme_sep_index(uri) {
        None => Seq::empty(),
        Some(i) => {
            let head = uri.take(i as int) + "://"@;
            seq![(head, head)] + crumbs_from(
                nonempty(split(uri.skip((i + 3) as int), '/')),
                head,
                seq!['/'],
            )
        },
    }
}

pub open spec fn is_qnc_path(p: Seq<char>) -> bool {
    starts_with(p, "qnc+local://"@) || starts_with(p, "qnc+lan://"@) || starts_with(
        p,
        "qnc+intranet://"@,
    ) || starts_with(p, "qnc://"@)
}

/// The clickable chain of a location: transport URIs by scheme and path,
/// drive paths from the drive, UNC paths from the server, absolute paths
/// from `/`, and other paths from their first part.
pub open spec fn breadcrumbs(path: Seq<char>) -> Seq<(Seq<char>, Seq<char>)> {
    let clean = trim(path);
    if clean.len() == 0 {
        Seq::empty()
    } else if is_qnc_path(clean) {
        qnc_crumbs(clean)
    } else if is_drive_rooted(clean) {
        let drive = clean.take(2);
        let head = drive + seq!['\\'];
        seq![(drive, head)] + crumbs_from(
            nonempty(
                split_in(trim_class(clean.skip(3), CharClass::PathSeparator), CharClass::PathSeparator),
            ),
            head,
            seq!['\\'],
        )
    } else if starts_with(clean, seq!['\\', '\\']) {
        crumbs_from(
            nonempty(split(trim_start_by(clean, eq_pred('\\')), '\\')),
            seq!['\\', '\\'],
            seq!['\\'],
        )
    } else if starts_with(clean, seq!['/']) {
        seq![(seq!['/'], seq!['/'])] + crumbs_from(
            nonempty(split(trim_start_by(clean, eq_pred('/')), '/')),
            seq!['/'],
            seq!['/'],
        )
    } else {
        crumbs_from(
            nonempty(split_in(clean, CharClass::PathSeparator)),
            Seq::<char>::empty(),
            seq!['\\'],
        )
    }
}

pub open spec fn pairs_view(v: Seq<(String, String)>) -> Seq<(Seq<char>, Seq<char>)> {
    v.map_values(|p: (String, String)| (p.0@, p.1@))
}

fn push_crumbs(
    out: &mut Vec<(String, String)>,
    parts: &Vec<Vec<char>>,
    head: &[char],
    sep: &[char],
)
    ensures
        pairs_view(final(out)@) == pairs_view(old(out)@) + crumbs_from(texts(parts@), head@, sep@),
{
    let ghost ps = texts(parts@);
    let mut current = copy_chars(head);
    let mut k: usize = 0;
    while k < parts.len()
        invariant
            ps == texts(parts@),
            k <= parts@.len(),
            k > 0 ==> current@ == head@ + join(ps.take(k as int), sep@),
            k == 0 ==> current@ == head@,
            pairs_view(out@) == pairs_view(old(out)@) + crumbs_from(ps, head@, sep@).take(
                k as int,
            ),
        decreases parts@.len() - k,
    {
        let ghost before = pairs_view(out@);
        if k > 0 {
            append(&mut current, sep);
        }
        append(&mut current, &parts[k]);
        proof {
            let t = ps.take(k + 1);
            assert(t.drop_last() =~= ps.take(k as int));
            assert(t.last() == parts@[k as int]@);
            if k == 0 {
                assert(join(t, sep@) == t[0]);
                assert(current@ =~= head@ + join(t, sep@));
            } else {
                assert(current@ =~= head@ + join(t, sep@));
            }
        }
        out.push((string_of(&parts[k]), string_of(&current)));
        k = k + 1;
        proof {
            assert(pairs_view(out@) =~= before.push((parts@[k - 1]@, current@)));
            assert(pairs_view(out@) =~= pairs_view(old(out)@) + crumbs_from(ps, head@, sep@).take(
                k as int,
            ));
        }
    }
    assert(crumbs_from(ps, head@, sep@).take(parts@.len() as int) =~= crumbs_from(
        ps,
        head@,
        sep@,
    ));
}

/// `://` starts at index `j`.
pub open spec fn sep_at(s: Seq<char>, j: int) -> bool {
    s.subrange(j, j + 3) == "://"@
}

proof fn lemma_scheme_sep_found(s: Seq<char>, i: int)
    requires
        0 <= i,
        i + 3 <= s.len(),
        sep_at(s, i),
        forall|j: int| 0 <= j < i ==> !#[trigger] sep_at(s, j),
    ensures
        scheme_sep_index(s) == Some(i as nat),
    decreases i,
{
    assert(s.take(3) =~= s.subrange(0, 3));
    if i > 0 {
        assert(!sep_at(s, 0));
        assert forall|j: int| 0 <= j < i - 1 implies !#[trigger] sep_at(s.drop_first(), j) by {
            assert(s.drop_first().subrange(j, j + 3) =~= s.subrange(j + 1, j + 4));
            assert(!sep_at(s, j + 1));
        }
        assert(s.drop_first().subrange(i - 1, i + 2) =~= s.subrange(i, i + 3));
        lemma_scheme_sep_found(s.drop_first(), i - 1);
    }
}

proof fn lemma_scheme_sep_none(s: Seq<char>)
    requires
        forall|j: int| 0 <= j && j + 3 <= s.len() ==> !#[trigger] sep_at(s, j),
    ensures
        scheme_sep_index(s) == None::<nat>,
    decreases s.len(),
{
    if s.len() >= 3 {
        assert(s.take(3) =~= s.subrange(0, 3));
        assert(!sep_at(s, 0));
        assert forall|j: int| 0 <= j && j + 3 <= s.drop_first().len() implies !#[trigger] sep_at(
            s.drop_first(),
            j,
        ) by {
            assert(s.drop_first().subrange(j, j + 3) =~= s.subrange(j + 1, j + 4));
            assert(!sep_at(s, j + 1));
        }
        lemma_scheme_sep_none(s.drop_first());
    }
}

fn find_scheme_sep(s: &[char]) -> (r: Option<usize>)
    ensures
        r matches Some(i) ==> scheme_sep_index(s@) == Some(i as nat) && i + 3 <= s@.len(),
        r is None ==> scheme_sep_index(s@) is None,
{
    let n = s.len();
    let mut i: usize = 0;
    while n >= 3 && i <= n - 3
        invariant
            n == s@.len(),
            i <= n,
            forall|j: int| 0 <= j < i ==> !#[trigger] sep_at(s@, j),
        decreases n - i,
    {
        proof {
            reveal_strlit("://");
        }
        if s[i] == ':' && s[i + 1] == '/' && s[i + 2] == '/' {
            proof {
                assert(s@.subrange(i as int, i + 3) =~= "://"@);
                lemma_scheme_sep_found(s@, i as int);
            }
            return Some(i);
        }
        assert(!sep_at(s@, i as int)) by {
            if sep_at(s@, i as int) {
                assert(s@.subrange(i as int, i + 3)[0] == s@[i as int]);
                assert(s@.subrange(i as int, i + 3)[1] == s@[i + 1]);
                assert(s@.subrange(i as int, i + 3)[2] == s@[i + 2]);
            }
        }
        i = i + 1;
    }
    proof {
        lemma_scheme_sep_none(s@);
    }
    None
}

/// The crumbs of a QNC transport URI.
pub fn qnc_uri_breadcrumb_parts(uri: &str) -> (r: Vec<(String, String)>)
    ensures
        pairs_view(r@) == qnc_crumbs(uri@),
{
    let u = chars_of(uri);
    let mut out: Vec<(String, String)> = Vec::new();
    match find_scheme_sep(&u) {
        None => {
            assert(pairs_view(out@) =~= Seq::<(Seq<char>, Seq<char>)>::empty());
            out
        },
        Some(i) => {
            let mut head = subrange(&u, 0, i);
            append_str(&mut head, "://");
            out.push((string_of(&head), string_of(&head)));
            let n = u.len();
            assert(i + 3 <= n);
            let rest = subrange(&u, i + 3, n);
            assert(rest@ =~= u@.skip(i + 3));
            let pieces = split_char(&rest, '/');
            let parts = nonempty_parts(&pieces);
            let slash = vec!['/'];
            assert(slash@ =~= seq!['/']);
            let ghost first = pairs_view(out@);
            assert(first =~= seq![(head@, head@)]);
            push_crumbs(&mut out, &parts, &head, &slash);
            out
        },
    }
}

pub fn is_qnc_transport_path(path: &[char]) -> (r: bool)
    ensures
        r == is_qnc_path(path@),
{
    starts_with_str(path, "qnc+local://") || starts_with_str(path, "qnc+lan://")
        || starts_with_str(path, "qnc+intranet://") || starts_with_str(path, "qnc://")
}

/// The clickable chain of a location.
pub fn breadcrumb_parts(path: &str) -> (r: Vec<(String, String)>)
    ensures
        pairs_view(r@) == breadcrumbs(path@),
{
    let clean = trim_chars(&chars_of(path));
    let mut out: Vec<(String, String)> = Vec::new();
    if clean.len() == 0 {
        assert(pairs_view(out@) =~= Seq::<(Seq<char>, Seq<char>)>::empty());
        return out;
    }
    if is_qnc_transport_path(&clean) {
        let s = string_of(&clean);
        return qnc_uri_breadcrumb_parts(s.as_str());
    }
    let bs2 = vec!['\\', '\\'];
    let bs = vec!['\\'];
    let fs = vec!['/'];
    assert(bs2@ =~= seq!['\\', '\\']);
    assert(bs@ =~= seq!['\\']);
    assert(fs@ =~= seq!['/']);
    if clean.len() >= 3 && (clean[0] as u32) < 128 && clean[1] == ':' && (clean[2] == '\\'
        || clean[2] == '/') {
        let drive = subrange(&clean, 0, 2);
        let mut head = copy_chars(&drive);
        head.push('\\');
        out.push((string_of(&drive), string_of(&head)));
        let after = subrange(&clean, 3, clean.len());
        assert(after@ =~= clean@.skip(3));
        let rest = trim_in_class(&after, CharClass::PathSeparator);
        let pieces = split_in_class(&rest, CharClass::PathSeparator);
        let parts = nonempty_parts(&pieces);
        assert(pairs_view(out@) =~= seq![(drive@, head@)]);
        assert(head@ =~= drive@ + seq!['\\']);
        push_crumbs(&mut out, &parts, &head, &bs);
        return out;
    }
    if starts_with_chars(&clean, &bs2) {
        let rest = trim_start_char(&clean, '\\');
        let pieces = split_char(&rest, '\\');
        let parts = nonempty_parts(&pieces);
        assert(pairs_view(out@) =~= Seq::<(Seq<char>, Seq<char>)>::empty());
        push_crumbs(&mut out, &parts, &bs2, &bs);
        return out;
    }
    if starts_with_chars(&clean, &fs) {
        out.push((string_of(&fs), string_of(&fs)));
        let rest = trim_start_char(&clean, '/');
        let pieces = split_char(&rest, '/');
        let parts = nonempty_parts(&pieces);
        assert(pairs_view(out@) =~= seq![(seq!['/'], seq!['/'])]);
        push_crumbs(&mut out, &parts, &fs, &fs);
        return out;
    }
    let pieces = split_in_class(&clean, CharClass::PathSeparator);
    let parts = nonempty_parts(&pieces);
    let empty: Vec<char> = Vec::new();
    assert(pairs_view(out@) =~= Seq::<(Seq<char>, Seq<char>)>::empty());
    push_crumbs(&mut out, &parts, &empty, &bs);
    out
}

/// A shortened path never takes more than 42 characters, and a path that
/// fits is only trimmed.
pub proof fn lemma_short_path_fits(path: Seq<char>)
    ensures
        short_path_text(path).len() <= 42,
        trim(path).len() <= 42 ==> short_path_text(path) == trim(path),
{
    reveal_strlit("...");
    let c = trim(path);
    if c.len() > 42 {
        assert(c.skip(c.len() - 36).len() == 36);
        assert(("..."@ + c.skip(c.len() - 36)).len() == 39);
    }
}

/// The operator can confirm a location when the browser is not busy and a
/// path is chosen: for a local source a directory, not the list of roots.
pub open spec fn confirmable(state: SourceBrowserState) -> bool {
    &&& !state.busy
    &&& trim(state.path@).len() > 0
    &&& (state.kind == SourceKind::Local ==> !state.roots)
}

pub fn can_confirm(state: &SourceBrowserState) -> (r: bool)
    ensures
        r == confirmable(*state),
{
    let chosen = trim_str(state.path.as_str()).len() > 0;
    !state.busy && chosen && (state.kind != SourceKind::Local || !state.roots)
}

/// Going up is offered inside a local directory that has a parent.
pub fn can_go_up(state: &SourceBrowserState) -> (r: bool)
    ensures
        r == (state.kind == SourceKind::Local && !state.roots && state.parent is Some),
{
    state.kind == SourceKind::Local && !state.roots && state.parent.is_some()
}

} // verus!
