//! The rules of the media probe: which clips a request selects, where their
//! files are, what is read from ffprobe's output (codecs, size, frame rate
//! and the embedded creation timestamp), and the JSON recorded for failed
//! probes and for timestamp updates. Running ffprobe, and reading the
//! duration (a float) from its output, are left to the caller.
use vstd::prelude::*;
use crate::db::{ClipCreationTimestampUpdate, MediaProbeSnapshotRecord};
use crate::model::contains_id;
use crate::fmt::{
    dec_int, json_member_of, json_null, json_object, json_object_of, json_opt_string,
    json_opt_text, json_str_text, json_string, lemma_json_object, members_text, opt_view,
    push_dec_int,
};
use crate::fmt::strings_view;
use crate::json::json_parse_error;
use crate::probe_output::{
    creation_timestamp_of, facts_view, fps_of, lemma_creation_timestamp, lemma_first_stream_of_type,
    lemma_fps_of, parse_probe_stdout, stdout_facts, stream_of_type, FactsView,
};
use crate::text::{
    append, append_str, chars_eq, chars_of, contains_char, copy_chars, ends_with, is_ascii_digit,
    is_digit_char, lower, lower_chars, nonempty, nonempty_parts, split, split_char, split_once,
    split_once_char, str_eq, string_of, subrange, texts, trim, trim_chars, trim_str,
};

verus! {

pub const PROBE_VERSION: &'static str = "ffprobe-full-v1";

/// A probe of the selected clips of a source, read at an access root.
#[derive(Debug, Clone, PartialEq, Eq)]
pub struct ProbeRequest {
    pub source_identity: String,
    pub operator_access_root: String,
    pub selected_clip_ids: Vec<String>,
    pub probed_at: String,
}

impl ProbeRequest {
    pub fn new(
        source_identity: &str,
        operator_access_root: &str,
        selected_clip_ids: Vec<String>,
        probed_at: &str,
    ) -> (r: Self)
        ensures
            r.source_identity@ == source_identity@,
            r.operator_access_root@ == operator_access_root@,
            r.selected_clip_ids == selected_clip_ids,
            r.probed_at@ == probed_at@,
    {
        ProbeRequest {
            source_identity: source_identity.to_owned(),
            operator_access_root: operator_access_root.to_owned(),
            selected_clip_ids,
            probed_at: probed_at.to_owned(),
        }
    }

    /// The request's source identity, trimmed; `None` when it is blank
    /// (the request is refused before anything is read).
    pub fn checked_source_identity(&self) -> (r: Option<String>)
        ensures
            r is None <==> trim(self.source_identity@).len() == 0,
            r matches Some(s) ==> s@ == trim(self.source_identity@),
    {
        let t = crate::text::trim_str(self.source_identity.as_str());
        if t.len() == 0 {
            None
        } else {
            Some(string_of(&t))
        }
    }
}

#[derive(Debug, Clone, PartialEq, Eq)]
pub struct ProbeReport {
    pub source_identity: String,
    pub requested_clips: usize,
    pub candidate_clips: usize,
    pub probes_ok: usize,
    pub probes_error: usize,
    pub probes_skipped: usize,
}

impl ProbeReport {
    /// The requested ids that matched no clip are the skipped ones.
    pub open spec fn skips_agree(self) -> bool {
        self.probes_skipped == if self.requested_clips >= self.candidate_clips {
            self.requested_clips - self.candidate_clips
        } else {
            0
        }
    }

    /// A report before any probe ran: requested ids that matched no clip
    /// are skipped.
    pub fn new(source_identity: &str, requested_clips: usize, candidate_clips: usize) -> (r: Self)
        ensures
            r.skips_agree(),
            r.source_identity@ == source_identity@,
            r.requested_clips == requested_clips,
            r.candidate_clips == candidate_clips,
            r.probes_ok == 0,
            r.probes_error == 0,
            r.probes_skipped == if requested_clips >= candidate_clips {
                requested_clips - candidate_clips
            } else {
                0
            },
    {
        ProbeReport {
            source_identity: source_identity.to_owned(),
            requested_clips,
            candidate_clips,
            probes_ok: 0,
            probes_error: 0,
            probes_skipped: if requested_clips >= candidate_clips {
                requested_clips - candidate_clips
            } else {
                0
            },
        }
    }

    /// Counts one probe by the status of its snapshot.
    pub fn record_probe(&mut self, ok: bool)
        requires
            old(self).probes_ok < usize::MAX,
            old(self).probes_error < usize::MAX,
        ensures
            old(self).skips_agree() ==> final(self).skips_agree(),
            final(self).probes_ok == old(self).probes_ok + if ok {
                1int
            } else {
                0int
            },
            final(self).probes_error == old(self).probes_error + if ok {
                0int
            } else {
                1int
            },
            final(self).requested_clips == old(self).requested_clips,
            final(self).candidate_clips == old(self).candidate_clips,
            final(self).probes_skipped == old(self).probes_skipped,
            final(self).source_identity == old(self).source_identity,
    {
        if ok {
            self.probes_ok = self.probes_ok + 1;
        } else {
            self.probes_error = self.probes_error + 1;
        }
    }
}

pub open spec fn no_duplicates(s: Seq<Seq<char>>) -> bool {
    forall|i: int, j: int| 0 <= i < j < s.len() ==> s[i] != s[j]
}

proof fn lemma_push_contains(s: Seq<Seq<char>>, a: Seq<char>, x: Seq<char>)
    ensures
        s.push(a).contains(x) <==> (s.contains(x) || x == a),
{
    if s.contains(x) {
        let k = choose|k: int| 0 <= k < s.len() && s[k] == x;
        assert(s.push(a)[k] == x);
    }
    if x == a {
        assert(s.push(a)[s.len() as int] == a);
    }
    if s.push(a).contains(x) && x != a {
        let k = choose|k: int| 0 <= k < s.push(a).len() && s.push(a)[k] == x;
        assert(k < s.len());
        assert(s[k] == x);
    }
}

/// The distinct ids a probe request names, trimmed, blank ones left out, in
/// the order they first occur.
pub fn requested_clip_ids(selected_clip_ids: &Vec<String>) -> (r: Vec<String>)
    ensures
        no_duplicates(strings_view(r@)),
        forall|x: Seq<char>|
            strings_view(r@).contains(x) <==> #[trigger] crate::runtime::requested_ids(
                strings_view(selected_clip_ids@),
            ).contains(x),
{
    let ghost all = strings_view(selected_clip_ids@).map_values(|s: Seq<char>| trim(s));
    let mut out: Vec<String> = Vec::new();
    let mut i: usize = 0;
    while i < selected_clip_ids.len()
        invariant
            i <= selected_clip_ids@.len(),
            all == strings_view(selected_clip_ids@).map_values(|s: Seq<char>| trim(s)),
            no_duplicates(strings_view(out@)),
            forall|x: Seq<char>|
                strings_view(out@).contains(x) <==> #[trigger] nonempty(all.take(i as int)).contains(
                    x,
                ),
        decreases selected_clip_ids@.len() - i,
    {
        let t = trim_str(selected_clip_ids[i].as_str());
        let ghost before = strings_view(out@);
        proof {
            assert(all.take(i + 1).drop_last() =~= all.take(i as int));
            assert(all.take(i + 1).last() == t@);
            reveal(Seq::filter);
        }
        if t.len() > 0 {
            let ts = string_of(&t);
            if !crate::model::contains_id(&out, ts.as_str()) {
                out.push(ts);
                assert(strings_view(out@) =~= before.push(t@));
                assert forall|a: int, b: int|
                    0 <= a < b < strings_view(out@).len() implies strings_view(out@)[a]
                    != strings_view(out@)[b] by {
                    if b == before.len() {
                        assert(before[a] == strings_view(out@)[a]);
                    }
                }
            }
        }
        i = i + 1;
        proof {
            let prev = nonempty(all.take(i - 1));
            if t@.len() > 0 {
                assert(nonempty(all.take(i as int)) =~= prev.push(t@));
                assert forall|x: Seq<char>| strings_view(out@).contains(x) <==> #[trigger] nonempty(
                    all.take(i as int),
                ).contains(x) by {
                    lemma_push_contains(prev, t@, x);
                    lemma_push_contains(before, t@, x);
                }
            } else {
                assert(nonempty(all.take(i as int)) =~= prev);
            }
        }
    }
    assert(all.take(selected_clip_ids@.len() as int) =~= all);
    out
}

// ---------------------------------------------------------------------------
// Paths of probed media
// ---------------------------------------------------------------------------

/// A drive prefix `X:` at the start of a segment, which a Windows host
/// reads as the root of another drive.
pub open spec fn drive_prefix_segment(p: Seq<char>) -> bool {
    p.len() >= 2 && crate::text::is_ascii_alpha(p[0]) && p[1] == ':'
}

/// The segments of a relative transport path, each trimmed: `None` when a
/// segment is blank, holds `\`, is `..` (or `.` unless allowed), or, on a
/// Windows host, starts with a drive prefix.
pub open spec fn bad_segment(p: Seq<char>, allow_current: bool, windows: bool) -> bool {
    p.len() == 0 || p.contains('\\') || p == ".."@ || (!allow_current && p == "."@) || (windows
        && drive_prefix_segment(p))
}

pub open spec fn trimmed_all(parts: Seq<Seq<char>>) -> Seq<Seq<char>> {
    parts.map_values(|s: Seq<char>| trim(s))
}

pub open spec fn segments_of(relative: Seq<char>, allow_current: bool, windows: bool) -> Option<
    Seq<Seq<char>>,
> {
    let ps = trimmed_all(split(relative, '/'));
    if exists|i: int| 0 <= i < ps.len() && #[trigger] bad_segment(ps[i], allow_current, windows) {
        None
    } else {
        Some(ps)
    }
}

/// The segments below the access root where a clip's file is read, on a
/// Windows host when `windows` is set.
pub fn transport_segments(relative_path: &str, allow_current: bool, windows: bool) -> (r: Option<
    Vec<String>,
>)
    ensures
        match r {
            Some(v) => segments_of(relative_path@, allow_current, windows) == Some(
                strings_view(v@),
            ),
            None => segments_of(relative_path@, allow_current, windows) is None,
        },
{
    let pieces = split_char(&chars_of(relative_path), '/');
    let ghost ps = trimmed_all(texts(pieces@));
    let mut out: Vec<String> = Vec::new();
    let mut i: usize = 0;
    while i < pieces.len()
        invariant
            i <= pieces@.len(),
            ps == trimmed_all(texts(pieces@)),
            texts(pieces@) == split(relative_path@, '/'),
            strings_view(out@) == ps.take(i as int),
            forall|j: int| 0 <= j < i ==> !#[trigger] bad_segment(ps[j], allow_current, windows),
        decreases pieces@.len() - i,
    {
        let t = trim_chars(&pieces[i]);
        assert(t@ == ps[i as int]);
        let dots = chars_of("..");
        let dot = chars_of(".");
        let drive = t.len() >= 2 && crate::text::is_alpha_char(t[0]) && t[1] == ':';
        if t.len() == 0 || contains_char(&t, '\\') || chars_eq(&t, &dots) || (!allow_current
            && chars_eq(&t, &dot)) || (windows && drive) {
            assert(bad_segment(ps[i as int], allow_current, windows));
            return None;
        }
        let ghost before = strings_view(out@);
        out.push(string_of(&t));
        i = i + 1;
        assert(strings_view(out@) =~= before.push(t@));
        assert(strings_view(out@) =~= ps.take(i as int));
    }
    assert(ps.take(pieces@.len() as int) =~= ps);
    Some(out)
}

// ---------------------------------------------------------------------------
// What ffprobe reports
// ---------------------------------------------------------------------------

/// A tag of ffprobe's output: its key, and its value when that is a string.
#[derive(Debug, Clone, PartialEq, Eq)]
pub struct ProbeTag {
    pub key: String,
    pub value: Option<String>,
}

/// What the probe reads of one stream; absent or mistyped fields are `None`.
#[derive(Debug, Clone, PartialEq, Eq)]
pub struct ProbeStream {
    pub codec_type: Option<String>,
    pub codec_name: Option<String>,
    pub width: Option<i64>,
    pub height: Option<i64>,
    pub avg_frame_rate: Option<String>,
    pub r_frame_rate: Option<String>,
    pub tags: Option<Vec<ProbeTag>>,
}

/// What the probe reads of ffprobe's output: the streams in order, and the
/// format tags (tags in the order the JSON object lists them).
#[derive(Debug, Clone, PartialEq, Eq)]
pub struct ProbeFacts {
    pub streams: Vec<ProbeStream>,
    pub format_tags: Option<Vec<ProbeTag>>,
}

#[derive(Debug, Clone, PartialEq, Eq)]
pub struct CreationTimestamp {
    pub value: String,
    pub source: String,
    pub offset: Option<String>,
    pub tag_path: String,
    pub tag_key: String,
}

/// What the probe keeps of ffprobe's output, apart from the duration.
#[derive(Debug, Clone, PartialEq, Eq)]
pub struct ProbeSummary {
    pub video_codec: Option<String>,
    pub audio_codec: Option<String>,
    pub width: Option<i64>,
    pub height: Option<i64>,
    pub fps: Option<(i64, i64)>,
    pub creation_timestamp: Option<CreationTimestamp>,
}

/// The decimal value of a sequence of digits.
pub open spec fn digits_value(s: Seq<char>) -> nat
    decreases s.len(),
{
    if s.len() == 0 {
        0
    } else {
        digits_value(s.drop_last()) * 10 + ((s.last() as u32) - ('0' as u32)) as nat
    }
}

pub open spec fn all_digits(s: Seq<char>) -> bool {
    forall|i: int| 0 <= i < s.len() ==> is_ascii_digit(#[trigger] s[i])
}

/// `str::parse::<i64>`: an optional sign and at least one digit, in range.
pub open spec fn parse_i64(s: Seq<char>) -> Option<int> {
    if s.len() == 0 {
        None
    } else {
        let neg = s[0] == '-';
        let d = if s[0] == '-' || s[0] == '+' {
            s.skip(1)
        } else {
            s
        };
        if d.len() == 0 || !all_digits(d) {
            None
        } else {
            let v: int = if neg {
                -digits_value(d)
            } else {
                digits_value(d) as int
            };
            if i64::MIN <= v <= i64::MAX {
                Some(v)
            } else {
                None
            }
        }
    }
}

proof fn lemma_digits_grow(s: Seq<char>, i: int)
    requires
        0 <= i <= s.len(),
        all_digits(s),
    ensures
        digits_value(s.take(i)) <= digits_value(s),
    decreases s.len() - i,
{
    if i < s.len() {
        lemma_digits_grow(s, i + 1);
        assert(s.take(i + 1).drop_last() =~= s.take(i));
    } else {
        assert(s.take(i) =~= s);
    }
}

/// `str::parse::<i64>`.
pub fn parse_i64_text(s: &[char]) -> (r: Option<i64>)
    ensures
        match r {
            Some(v) => parse_i64(s@) == Some(v as int),
            None => parse_i64(s@) is None,
        },
{
    if s.len() == 0 {
        return None;
    }
    let neg = s[0] == '-';
    let start: usize = if s[0] == '-' || s[0] == '+' {
        1
    } else {
        0
    };
    let d = subrange(s, start, s.len());
    assert(start == 1 ==> d@ =~= s@.skip(1));
    assert(start == 0 ==> d@ =~= s@);
    if d.len() == 0 {
        return None;
    }
    let mut acc: u128 = 0;
    let mut i: usize = 0;
    while i < d.len()
        invariant
            s@.len() > 0,
            neg == (s@[0] == '-'),
            d@ == (if s@[0] == '-' || s@[0] == '+' {
                s@.skip(1)
            } else {
                s@
            }),
            i <= d@.len(),
            acc == digits_value(d@.take(i as int)),
            acc <= 9223372036854775808u128,
            forall|j: int| 0 <= j < i ==> is_ascii_digit(d@[j]),
        decreases d@.len() - i,
    {
        let c = d[i];
        if !is_digit_char(c) {
            assert(!is_ascii_digit(d@[i as int]));
            return None;
        }
        let digit: u128 = ((c as u32) - 48) as u128;
        let next: u128 = acc * 10 + digit;
        proof {
            assert(d@.take(i + 1).drop_last() =~= d@.take(i as int));
            assert(d@.take(i + 1).last() == c);
            assert(digits_value(d@.take(i + 1)) == next);
        }
        if next > 9223372036854775808u128 {
            proof {
                if all_digits(d@) {
                    lemma_digits_grow(d@, i + 1);
                }
            }
            return None;
        }
        acc = next;
        i = i + 1;
    }
    assert(d@.take(d@.len() as int) =~= d@);
    assert(all_digits(d@));
    assert(acc == digits_value(d@));
    if neg {
        if acc == 9223372036854775808u128 {
            Some(i64::MIN)
        } else {
            Some(0 - (acc as i64))
        }
    } else if acc <= 9223372036854775807u128 {
        Some(acc as i64)
    } else {
        None
    }
}

// ---------------------------------------------------------------------------
// Rates, offsets and timestamps
// ---------------------------------------------------------------------------

/// A frame rate `num/den` with both parts positive.
pub open spec fn rate_of(value: Seq<char>) -> Option<(int, int)> {
    match split_once(trim(value), '/') {
        None => None,
        Some(nd) => match (parse_i64(nd.0), parse_i64(nd.1)) {
            (Some(n), Some(d)) => if n > 0 && d > 0 {
                Some((n, d))
            } else {
                None
            },
            _ => None,
        },
    }
}

pub fn parse_rate(value: &str) -> (r: Option<(i64, i64)>)
    ensures
        match r {
            Some(p) => rate_of(value@) == Some((p.0 as int, p.1 as int)),
            None => rate_of(value@) is None,
        },
{
    let t = trim_str(value);
    match split_once_char(&t, '/') {
        None => None,
        Some((n, d)) => match (parse_i64_text(&n), parse_i64_text(&d)) {
            (Some(a), Some(b)) => if a > 0 && b > 0 {
                Some((a, b))
            } else {
                None
            },
            _ => None,
        },
    }
}

/// `±HH:MM`.
pub open spec fn offset_pattern(s: Seq<char>) -> bool {
    &&& s.len() == 6
    &&& s[0] == '+' || s[0] == '-'
    &&& s[3] == ':'
    &&& is_ascii_digit(s[1]) && is_ascii_digit(s[2])
    &&& is_ascii_digit(s[4]) && is_ascii_digit(s[5])
}

/// The UTC offset a timestamp text ends with: `+00:00` for `Z`, else a
/// final `±HH:MM`.
pub open spec fn offset_of(value: Seq<char>) -> Option<Seq<char>> {
    let t = trim(value);
    if t.len() > 0 && (t.last() == 'Z' || t.last() == 'z') {
        Some("+00:00"@)
    } else if t.len() >= 6 && offset_pattern(t.skip(t.len() - 6)) {
        Some(t.skip(t.len() - 6))
    } else {
        None
    }
}

/// The offset can be read: the text ends with `Z`, or its UTF-8 bytes are
/// fewer than six, or the sixth byte from the end starts a character (the
/// offset is read as a slice of the last six bytes).
pub open spec fn offset_readable(value: Seq<char>) -> bool {
    let t = trim(value);
    let b = vstd::utf8::encode_utf8(t);
    (t.len() > 0 && (t.last() == 'Z' || t.last() == 'z')) || b.len() < 6
        || !vstd::utf8::is_continuation_byte(b[b.len() - 6])
}

pub fn offset_is_readable(value: &str) -> (r: bool)
    ensures
        r == offset_readable(value@),
{
    let t = trim_str(value);
    if t.len() > 0 && (t[t.len() - 1] == 'Z' || t[t.len() - 1] == 'z') {
        return true;
    }
    let text = string_of(&t);
    let b = text.as_str().as_bytes();
    let n = b.len();
    n < 6 || !(0x80 <= b[n - 6] && b[n - 6] <= 0xbf)
}

pub fn timestamp_offset(value: &str) -> (r: Option<String>)
    requires
        offset_readable(value@),
    ensures
        opt_view(&r) == offset_of(value@),
{
    let t = trim_str(value);
    let n = t.len();
    if n > 0 && (t[n - 1] == 'Z' || t[n - 1] == 'z') {
        return Some("+00:00".to_owned());
    }
    if n >= 6 {
        let suf = subrange(&t, n - 6, n);
        assert(suf@ =~= t@.skip(t@.len() - 6));
        if (suf[0] == '+' || suf[0] == '-') && suf[3] == ':' && is_digit_char(suf[1])
            && is_digit_char(suf[2]) && is_digit_char(suf[4]) && is_digit_char(suf[5]) {
            return Some(string_of(&suf));
        }
    }
    None
}

/// Index of the first tag whose key equals `wanted` ignoring ASCII case and
/// whose value is a string.
pub open spec fn tag_index(tags: Seq<ProbeTag>, wanted: Seq<char>) -> Option<nat>
    decreases tags.len(),
{
    if tags.len() == 0 {
        None
    } else if lower(tags[0].key@) == lower(wanted) && tags[0].value is Some {
        Some(0)
    } else {
        match tag_index(tags.drop_first(), wanted) {
            Some(i) => Some(i + 1),
            None => None,
        }
    }
}

proof fn lemma_tag_index_found(tags: Seq<ProbeTag>, wanted: Seq<char>, i: int)
    requires
        0 <= i < tags.len(),
        lower(tags[i].key@) == lower(wanted) && tags[i].value is Some,
        forall|j: int|
            0 <= j < i ==> !(lower(#[trigger] tags[j].key@) == lower(wanted) && tags[j].value is Some),
    ensures
        tag_index(tags, wanted) == Some(i as nat),
    decreases i,
{
    if i > 0 {
        assert(!(lower(tags[0].key@) == lower(wanted) && tags[0].value is Some));
        assert forall|j: int| 0 <= j < i - 1 implies !(lower(
            #[trigger] tags.drop_first()[j].key@,
        ) == lower(wanted) && tags.drop_first()[j].value is Some) by {
            assert(tags.drop_first()[j] == tags[j + 1]);
        }
        lemma_tag_index_found(tags.drop_first(), wanted, i - 1);
    }
}

proof fn lemma_tag_index_none(tags: Seq<ProbeTag>, wanted: Seq<char>)
    requires
        forall|j: int|
            0 <= j < tags.len() ==> !(lower(#[trigger] tags[j].key@) == lower(wanted)
                && tags[j].value is Some),
    ensures
        tag_index(tags, wanted) == None::<nat>,
    decreases tags.len(),
{
    if tags.len() > 0 {
        assert(!(lower(tags[0].key@) == lower(wanted) && tags[0].value is Some));
        assert forall|j: int| 0 <= j < tags.len() - 1 implies !(lower(
            #[trigger] tags.drop_first()[j].key@,
        ) == lower(wanted) && tags.drop_first()[j].value is Some) by {
            assert(tags.drop_first()[j] == tags[j + 1]);
        }
        lemma_tag_index_none(tags.drop_first(), wanted);
    }
}

fn find_tag(tags: &Vec<ProbeTag>, wanted: &str) -> (r: Option<usize>)
    ensures
        r matches Some(i) ==> tag_index(tags@, wanted@) == Some(i as nat) && i < tags@.len()
            && tags@[i as int].value is Some,
        r is None ==> tag_index(tags@, wanted@) is None,
{
    let w = lower_chars(&chars_of(wanted));
    let mut i: usize = 0;
    while i < tags.len()
        invariant
            i <= tags@.len(),
            w@ == lower(wanted@),
            forall|j: int|
                0 <= j < i ==> !(lower(#[trigger] tags@[j].key@) == lower(wanted@)
                    && tags@[j].value is Some),
        decreases tags@.len() - i,
    {
        let k = lower_chars(&chars_of(tags[i].key.as_str()));
        if chars_eq(&k, &w) && tags[i].value.is_some() {
            proof {
                lemma_tag_index_found(tags@, wanted@, i as int);
            }
            return Some(i);
        }
        i = i + 1;
    }
    proof {
        lemma_tag_index_none(tags@, wanted@);
    }
    None
}

pub open spec fn camera_keys() -> Seq<Seq<char>> {
    seq!["com.apple.quicktime.creationdate"@, "creationdate"@, "creation_date"@, "date"@]
}

/// The tag of the first camera key that has a string value.
pub open spec fn camera_tag(tags: Seq<ProbeTag>, keys: Seq<Seq<char>>) -> Option<nat>
    decreases keys.len(),
{
    if keys.len() == 0 {
        None
    } else {
        match tag_index(tags, keys[0]) {
            Some(i) => Some(i),
            None => camera_tag(tags, keys.drop_first()),
        }
    }
}

pub struct TimestampView {
    pub value: Seq<char>,
    pub source: Seq<char>,
    pub offset: Option<Seq<char>>,
    pub tag_path: Seq<char>,
    pub tag_key: Seq<char>,
}

pub open spec fn ts_view(t: CreationTimestamp) -> TimestampView {
    TimestampView {
        value: t.value@,
        source: t.source@,
        offset: opt_view(&t.offset),
        tag_path: t.tag_path@,
        tag_key: t.tag_key@,
    }
}

pub open spec fn tag_timestamp(tag: ProbeTag, source: Seq<char>, tag_path: Seq<char>) -> TimestampView {
    let value = match opt_view(&tag.value) {
        Some(v) => v,
        None => Seq::empty(),
    };
    TimestampView {
        value,
        source,
        offset: offset_of(value),
        tag_path,
        tag_key: tag.key@,
    }
}

/// The creation timestamp among a set of tags: a camera date first, else
/// the container's `creation_time`.
pub open spec fn timestamp_in(tags: Seq<ProbeTag>, tag_path: Seq<char>) -> Option<TimestampView> {
    match camera_tag(tags, camera_keys()) {
        Some(i) => Some(tag_timestamp(tags[i as int], "embedded_camera"@, tag_path)),
        None => match tag_index(tags, "creation_time"@) {
            Some(i) => Some(tag_timestamp(tags[i as int], "embedded_container"@, tag_path)),
            None => None,
        },
    }
}

/// A key that names a camera's capture date, compared ignoring ASCII case.
pub open spec fn is_camera_date_key(key: Seq<char>) -> bool {
    lower(key) == lower("com.apple.quicktime.creationdate"@) || lower(key) == lower(
        "creationdate"@,
    ) || lower(key) == lower("creation_date"@) || lower(key) == lower("date"@)
}

proof fn lemma_tag_index_sound(tags: Seq<ProbeTag>, wanted: Seq<char>)
    ensures
        tag_index(tags, wanted) matches Some(j) ==> j < tags.len() && lower(tags[j as int].key@)
            == lower(wanted) && tags[j as int].value is Some,
    decreases tags.len(),
{
    if tags.len() > 0 {
        lemma_tag_index_sound(tags.drop_first(), wanted);
    }
}

proof fn lemma_tag_index_some(tags: Seq<ProbeTag>, wanted: Seq<char>, i: int)
    requires
        0 <= i < tags.len(),
        lower(tags[i].key@) == lower(wanted),
        tags[i].value is Some,
    ensures
        tag_index(tags, wanted) is Some,
    decreases tags.len(),
{
    if i > 0 && !(lower(tags[0].key@) == lower(wanted) && tags[0].value is Some) {
        assert(tags.drop_first()[i - 1] == tags[i]);
        lemma_tag_index_some(tags.drop_first(), wanted, i - 1);
    }
}

proof fn lemma_camera_tag_sound(tags: Seq<ProbeTag>, keys: Seq<Seq<char>>)
    ensures
        camera_tag(tags, keys) matches Some(j) ==> j < tags.len() && tags[j as int].value is Some
            && exists|m: int| 0 <= m < keys.len() && lower(tags[j as int].key@) == lower(#[trigger] keys[m]),
    decreases keys.len(),
{
    if keys.len() > 0 {
        lemma_tag_index_sound(tags, keys[0]);
        lemma_camera_tag_sound(tags, keys.drop_first());
        if tag_index(tags, keys[0]) is None && camera_tag(tags, keys) is Some {
            let j = camera_tag(tags, keys)->Some_0;
            let m = choose|m: int|
                0 <= m < keys.drop_first().len() && lower(tags[j as int].key@) == lower(
                    #[trigger] keys.drop_first()[m],
                );
            assert(keys[m + 1] == keys.drop_first()[m]);
        }
    }
}

proof fn lemma_camera_tag_some(tags: Seq<ProbeTag>, keys: Seq<Seq<char>>, m: int, i: int)
    requires
        0 <= m < keys.len(),
        0 <= i < tags.len(),
        lower(tags[i].key@) == lower(keys[m]),
        tags[i].value is Some,
    ensures
        camera_tag(tags, keys) is Some,
    decreases keys.len(),
{
    if m == 0 {
        lemma_tag_index_some(tags, keys[0], i);
    } else if tag_index(tags, keys[0]) is None {
        assert(keys.drop_first()[m - 1] == keys[m]);
        lemma_camera_tag_some(tags, keys.drop_first(), m - 1, i);
    }
}

proof fn lemma_camera_keys_are_camera_dates(key: Seq<char>, m: int)
    requires
        0 <= m < 4,
        lower(key) == lower(camera_keys()[m]),
    ensures
        is_camera_date_key(key),
{
}

/// Within one set of tags, a camera's capture date wins: when any tag under
/// a camera date key (`com.apple.quicktime.creationdate`, `creationdate`,
/// `creation_date` or `date`, in any case) holds a string, the timestamp
/// found there is an `embedded_camera` one read from such a tag, whether or
/// not a `creation_time` tag is present too.
pub proof fn lemma_camera_date_preferred(tags: Seq<ProbeTag>, tag_path: Seq<char>, i: int)
    requires
        0 <= i < tags.len(),
        tags[i].value is Some,
        is_camera_date_key(tags[i].key@),
    ensures
        timestamp_in(tags, tag_path) matches Some(t) && t.source == "embedded_camera"@
            && t.tag_path == tag_path && t.offset == offset_of(t.value) && exists|j: int|
            0 <= j < tags.len() && is_camera_date_key(#[trigger] tags[j].key@) && t.tag_key
                == tags[j].key@ && opt_view(&tags[j].value) == Some(t.value),
{
    let keys = camera_keys();
    let m: int = if lower(tags[i].key@) == lower(keys[0]) {
        0
    } else if lower(tags[i].key@) == lower(keys[1]) {
        1
    } else if lower(tags[i].key@) == lower(keys[2]) {
        2
    } else {
        3
    };
    lemma_camera_tag_some(tags, keys, m, i);
    lemma_camera_tag_sound(tags, keys);
    let j = camera_tag(tags, keys)->Some_0 as int;
    let mm = choose|mm: int| 0 <= mm < keys.len() && lower(tags[j].key@) == lower(#[trigger] keys[mm]);
    lemma_camera_keys_are_camera_dates(tags[j].key@, mm);
}

/// Without a camera date, a set of tags gives the container's
/// `creation_time` (in any case) when it holds a string, as an
/// `embedded_container` timestamp read from that tag.
pub proof fn lemma_container_time_otherwise(tags: Seq<ProbeTag>, tag_path: Seq<char>, i: int)
    requires
        forall|j: int|
            0 <= j < tags.len() && tags[j].value is Some ==> !is_camera_date_key(
                #[trigger] tags[j].key@,
            ),
        0 <= i < tags.len(),
        tags[i].value is Some,
        lower(tags[i].key@) == lower("creation_time"@),
    ensures
        timestamp_in(tags, tag_path) matches Some(t) && t.source == "embedded_container"@
            && t.tag_path == tag_path && t.offset == offset_of(t.value) && exists|j: int|
            0 <= j < tags.len() && lower(#[trigger] tags[j].key@) == lower("creation_time"@)
                && t.tag_key == tags[j].key@ && opt_view(&tags[j].value) == Some(t.value),
{
    let keys = camera_keys();
    lemma_camera_tag_sound(tags, keys);
    if camera_tag(tags, keys) is Some {
        let j = camera_tag(tags, keys)->Some_0 as int;
        let mm = choose|mm: int| 0 <= mm < keys.len() && lower(tags[j].key@) == lower(#[trigger] keys[mm]);
        lemma_camera_keys_are_camera_dates(tags[j].key@, mm);
    }
    lemma_tag_index_some(tags, "creation_time"@, i);
    lemma_tag_index_sound(tags, "creation_time"@);
}

/// A set of tags with neither a camera date nor a `creation_time` holding a
/// string gives no timestamp.
pub proof fn lemma_no_timestamp_tag(tags: Seq<ProbeTag>, tag_path: Seq<char>)
    requires
        forall|j: int|
            0 <= j < tags.len() && tags[j].value is Some ==> !is_camera_date_key(
                #[trigger] tags[j].key@,
            ) && lower(tags[j].key@) != lower("creation_time"@),
    ensures
        timestamp_in(tags, tag_path) is None,
{
    let keys = camera_keys();
    lemma_camera_tag_sound(tags, keys);
    if camera_tag(tags, keys) is Some {
        let j = camera_tag(tags, keys)->Some_0 as int;
        let mm = choose|mm: int| 0 <= mm < keys.len() && lower(tags[j].key@) == lower(#[trigger] keys[mm]);
        lemma_camera_keys_are_camera_dates(tags[j].key@, mm);
    }
    lemma_tag_index_sound(tags, "creation_time"@);
}

/// Index of the tag that holds the creation timestamp among a set of tags:
/// the first camera key with a string value, else `creation_time`.
pub open spec fn timestamp_tag_index(tags: Seq<ProbeTag>) -> Option<nat> {
    match camera_tag(tags, camera_keys()) {
        Some(i) => Some(i),
        None => tag_index(tags, "creation_time"@),
    }
}

/// The offset of a chosen timestamp can be read (the text is sliced at its
/// last six bytes, which must start a character).
pub open spec fn timestamp_readable(t: Option<TimestampView>) -> bool {
    match t {
        Some(t) => offset_readable(t.value),
        None => true,
    }
}

/// The offset of the creation timestamp that the probe picks can be read.
pub open spec fn facts_readable(facts: ProbeFacts) -> bool {
    timestamp_readable(creation_of(facts))
}

pub open spec fn tags_timestamp_readable(tags: Option<Vec<ProbeTag>>, tag_path: Seq<char>) -> bool {
    match tags {
        Some(ts) => timestamp_readable(timestamp_in(ts@, tag_path)),
        None => true,
    }
}

fn timestamp_tag(ts: &Vec<ProbeTag>) -> (r: Option<(usize, bool)>)
    ensures
        match r {
            Some((i, camera)) => i < ts@.len() && ts@[i as int].value is Some
                && timestamp_tag_index(ts@) == Some(i as nat) && (camera <==> camera_tag(
                ts@,
                camera_keys(),
            ) is Some),
            None => timestamp_tag_index(ts@) is None,
        },
{
    let keys = ["com.apple.quicktime.creationdate", "creationdate", "creation_date", "date"];
    let ghost kv = keys@.map_values(|s: &str| s@);
    assert(kv =~= camera_keys());
    assert(kv.skip(0) =~= kv);
    let mut k: usize = 0;
    while k < 4
        invariant
            k <= 4,
            keys@.len() == 4,
            kv == keys@.map_values(|s: &str| s@),
            kv == camera_keys(),
            camera_tag(ts@, kv) == camera_tag(ts@, kv.skip(k as int)),
        decreases 4 - k,
    {
        match find_tag(ts, keys[k]) {
            Some(i) => {
                assert(kv.skip(k as int)[0] == keys@[k as int]@);
                return Some((i, true));
            },
            None => {
                assert(kv.skip(k as int)[0] == keys@[k as int]@);
                assert(kv.skip(k as int).drop_first() =~= kv.skip(k + 1));
            },
        }
        k = k + 1;
    }
    assert(kv.skip(4).len() == 0);
    match find_tag(ts, "creation_time") {
        Some(i) => Some((i, false)),
        None => None,
    }
}

fn timestamp_from_tag(tag: &ProbeTag, source: &str, tag_path: &str) -> (r: CreationTimestamp)
    requires
        tag.value is Some,
        timestamp_readable(Some(tag_timestamp(*tag, source@, tag_path@))),
    ensures
        ts_view(r) == tag_timestamp(*tag, source@, tag_path@),
{
    let value = match &tag.value {
        Some(v) => v.clone(),
        None => String::new(),
    };
    let offset = timestamp_offset(value.as_str());
    CreationTimestamp {
        value,
        source: source.to_owned(),
        offset,
        tag_path: tag_path.to_owned(),
        tag_key: tag.key.clone(),
    }
}

/// The creation timestamp among one set of tags.
pub fn find_timestamp_in_tags(tags: &Option<Vec<ProbeTag>>, tag_path: &str) -> (r: Option<
    CreationTimestamp,
>)
    requires
        tags_timestamp_readable(*tags, tag_path@),
    ensures
        match tags {
            None => r is None,
            Some(ts) => opt_ts_view(r) == timestamp_in(ts@, tag_path@),
        },
{
    match tags {
        None => None,
        Some(ts) => match timestamp_tag(ts) {
            Some((i, camera)) => {
                let t = if camera {
                    timestamp_from_tag(&ts[i], "embedded_camera", tag_path)
                } else {
                    timestamp_from_tag(&ts[i], "embedded_container", tag_path)
                };
                Some(t)
            },
            None => None,
        },
    }
}

/// Whether the offset of the timestamp among these tags can be read, when
/// they hold one.
fn tags_offset_check(tags: &Option<Vec<ProbeTag>>) -> (r: Option<bool>)
    ensures
        match r {
            Some(b) => tags matches Some(ts) && forall|p: Seq<char>|
                #[trigger] timestamp_in(ts@, p) is Some && b == timestamp_readable(
                    timestamp_in(ts@, p),
                ),
            None => forall|p: Seq<char>| #[trigger] tags_timestamp_in(*tags, p) is None,
        },
{
    match tags {
        None => None,
        Some(ts) => match timestamp_tag(ts) {
            Some((i, _)) => {
                let b = match &ts[i].value {
                    Some(v) => offset_is_readable(v.as_str()),
                    None => true,
                };
                Some(b)
            },
            None => None,
        },
    }
}

pub open spec fn tags_timestamp_in(tags: Option<Vec<ProbeTag>>, tag_path: Seq<char>) -> Option<
    TimestampView,
> {
    match tags {
        Some(ts) => timestamp_in(ts@, tag_path),
        None => None,
    }
}

/// Whether the offset of the creation timestamp the probe picks can be
/// read.
pub fn probe_facts_readable(facts: &ProbeFacts) -> (r: bool)
    ensures
        r == facts_readable(*facts),
{
    match tags_offset_check(&facts.format_tags) {
        Some(b) => {
            return b;
        },
        None => {
            assert(tags_timestamp_in(facts.format_tags, "format.tags"@) is None);
        },
    }
    let mut k: usize = 0;
    while k < facts.streams.len()
        invariant
            k <= facts.streams@.len(),
            creation_of(*facts) == first_stream_timestamp(facts.streams@, k as int),
        decreases facts.streams@.len() - k,
    {
        match tags_offset_check(&facts.streams[k].tags) {
            Some(b) => {
                assert(stream_timestamp(facts.streams@, k as int) == timestamp_in(
                    facts.streams@[k as int].tags->0@,
                    stream_tags_path(k as nat),
                ));
                return b;
            },
            None => {
                assert(tags_timestamp_in(facts.streams@[k as int].tags, stream_tags_path(k as nat))
                    is None);
            },
        }
        k = k + 1;
    }
    true
}

pub open spec fn stream_tags_path(k: nat) -> Seq<char> {
    "streams["@ + crate::fmt::dec(k) + "].tags"@
}

pub open spec fn stream_timestamp(streams: Seq<ProbeStream>, k: int) -> Option<TimestampView> {
    match streams[k].tags {
        Some(ts) => timestamp_in(ts@, stream_tags_path(k as nat)),
        None => None,
    }
}

/// The first stream, from index `from` on, whose tags hold a timestamp.
pub open spec fn first_stream_timestamp(streams: Seq<ProbeStream>, from: int) -> Option<
    TimestampView,
>
    decreases streams.len() - from,
{
    if from < 0 || from >= streams.len() {
        None
    } else {
        match stream_timestamp(streams, from) {
            Some(t) => Some(t),
            None => first_stream_timestamp(streams, from + 1),
        }
    }
}

/// The creation timestamp of the output: from the format tags, else from
/// the first stream whose tags hold one.
pub open spec fn creation_of(facts: ProbeFacts) -> Option<TimestampView> {
    match facts.format_tags {
        Some(ts) => match timestamp_in(ts@, "format.tags"@) {
            Some(t) => Some(t),
            None => first_stream_timestamp(facts.streams@, 0),
        },
        None => first_stream_timestamp(facts.streams@, 0),
    }
}

proof fn lemma_first_stream_at(streams: Seq<ProbeStream>, from: int, k: int)
    requires
        0 <= from <= k < streams.len(),
        stream_timestamp(streams, k) is Some,
        forall|j: int| from <= j < k ==> #[trigger] stream_timestamp(streams, j) is None,
    ensures
        first_stream_timestamp(streams, from) == stream_timestamp(streams, k),
    decreases k - from,
{
    if from < k {
        lemma_first_stream_at(streams, from + 1, k);
    }
}

proof fn lemma_first_stream_none(streams: Seq<ProbeStream>, from: int)
    requires
        0 <= from,
        forall|j: int| from <= j < streams.len() ==> #[trigger] stream_timestamp(streams, j) is None,
    ensures
        first_stream_timestamp(streams, from) is None,
    decreases streams.len() - from,
{
    if from < streams.len() {
        lemma_first_stream_none(streams, from + 1);
    }
}

/// Where the creation timestamp of a probe comes from: the format tags when
/// they hold one; else the first stream, in order, whose tags hold one (read
/// under the path `streams[k].tags`); else there is none.
pub proof fn lemma_creation_timestamp_order(facts: ProbeFacts, k: int)
    ensures
        facts.format_tags matches Some(ts) ==> (timestamp_in(ts@, "format.tags"@) is Some
            ==> creation_of(facts) == timestamp_in(ts@, "format.tags"@)),
        (facts.format_tags matches Some(ts) ==> timestamp_in(ts@, "format.tags"@) is None) ==> {
            &&& (0 <= k < facts.streams@.len() && stream_timestamp(facts.streams@, k) is Some
                && forall|j: int| 0 <= j < k ==> #[trigger] stream_timestamp(facts.streams@, j)
                is None) ==> creation_of(facts) == stream_timestamp(facts.streams@, k)
            &&& (forall|j: int|
                0 <= j < facts.streams@.len() ==> #[trigger] stream_timestamp(facts.streams@, j)
                is None) ==> creation_of(facts) is None
        },
{
    if 0 <= k < facts.streams@.len() && stream_timestamp(facts.streams@, k) is Some && forall|
        j: int,
    | 0 <= j < k ==> #[trigger] stream_timestamp(facts.streams@, j) is None {
        lemma_first_stream_at(facts.streams@, 0, k);
    }
    if forall|j: int|
        0 <= j < facts.streams@.len() ==> #[trigger] stream_timestamp(facts.streams@, j) is None {
        lemma_first_stream_none(facts.streams@, 0);
    }
}

pub open spec fn opt_ts_view(o: Option<CreationTimestamp>) -> Option<TimestampView> {
    match o {
        Some(t) => Some(ts_view(t)),
        None => None,
    }
}

pub fn find_creation_timestamp(facts: &ProbeFacts) -> (r: Option<CreationTimestamp>)
    requires
        facts_readable(*facts),
    ensures
        opt_ts_view(r) == creation_of(*facts),
{
    let f = find_timestamp_in_tags(&facts.format_tags, "format.tags");
    if f.is_some() {
        return f;
    }
    let mut k: usize = 0;
    while k < facts.streams.len()
        invariant
            facts_readable(*facts),
            k <= facts.streams@.len(),
            creation_of(*facts) == first_stream_timestamp(facts.streams@, k as int),
        decreases facts.streams@.len() - k,
    {
        let mut path = chars_of("streams[");
        crate::fmt::push_dec(&mut path, k as u64);
        append_str(&mut path, "].tags");
        let p = string_of(&path);
        assert(p@ == stream_tags_path(k as nat));
        assert(tags_timestamp_readable(facts.streams@[k as int].tags, p@));
        let t = find_timestamp_in_tags(&facts.streams[k].tags, p.as_str());
        if t.is_some() {
            return t;
        }
        k = k + 1;
    }
    None
}

/// Index of the first stream of this codec type.
pub open spec fn first_of_type(streams: Seq<ProbeStream>, codec_type: Seq<char>) -> Option<nat>
    decreases streams.len(),
{
    if streams.len() == 0 {
        None
    } else if opt_view(&streams[0].codec_type) == Some(codec_type) {
        Some(0)
    } else {
        match first_of_type(streams.drop_first(), codec_type) {
            Some(i) => Some(i + 1),
            None => None,
        }
    }
}

proof fn lemma_first_of_type_found(streams: Seq<ProbeStream>, t: Seq<char>, i: int)
    requires
        0 <= i < streams.len(),
        opt_view(&streams[i].codec_type) == Some(t),
        forall|j: int| 0 <= j < i ==> opt_view(&(#[trigger] streams[j]).codec_type) != Some(t),
    ensures
        first_of_type(streams, t) == Some(i as nat),
    decreases i,
{
    if i > 0 {
        assert(opt_view(&streams[0].codec_type) != Some(t));
        assert forall|j: int| 0 <= j < i - 1 implies opt_view(
            &(#[trigger] streams.drop_first()[j]).codec_type,
        ) != Some(t) by {
            assert(streams.drop_first()[j] == streams[j + 1]);
        }
        lemma_first_of_type_found(streams.drop_first(), t, i - 1);
    }
}

proof fn lemma_first_of_type_none(streams: Seq<ProbeStream>, t: Seq<char>)
    requires
        forall|j: int|
            0 <= j < streams.len() ==> opt_view(&(#[trigger] streams[j]).codec_type) != Some(t),
    ensures
        first_of_type(streams, t) == None::<nat>,
    decreases streams.len(),
{
    if streams.len() > 0 {
        assert(opt_view(&streams[0].codec_type) != Some(t));
        assert forall|j: int| 0 <= j < streams.len() - 1 implies opt_view(
            &(#[trigger] streams.drop_first()[j]).codec_type,
        ) != Some(t) by {
            assert(streams.drop_first()[j] == streams[j + 1]);
        }
        lemma_first_of_type_none(streams.drop_first(), t);
    }
}

fn find_stream(streams: &Vec<ProbeStream>, codec_type: &str) -> (r: Option<usize>)
    ensures
        r matches Some(i) ==> first_of_type(streams@, codec_type@) == Some(i as nat) && i
            < streams@.len(),
        r is None ==> first_of_type(streams@, codec_type@) is None,
{
    let mut i: usize = 0;
    while i < streams.len()
        invariant
            i <= streams@.len(),
            forall|j: int|
                0 <= j < i ==> opt_view(&(#[trigger] streams@[j]).codec_type) != Some(codec_type@),
        decreases streams@.len() - i,
    {
        let found = match &streams[i].codec_type {
            Some(c) => str_eq(c.as_str(), codec_type),
            None => false,
        };
        if found {
            proof {
                lemma_first_of_type_found(streams@, codec_type@, i as int);
            }
            return Some(i);
        }
        i = i + 1;
    }
    proof {
        lemma_first_of_type_none(streams@, codec_type@);
    }
    None
}

pub open spec fn opt_rate(o: Option<Seq<char>>) -> Option<(int, int)> {
    match o {
        Some(v) => rate_of(v),
        None => None,
    }
}

/// The frame rate of a video stream: its average rate, else its base rate.
pub open spec fn stream_fps(s: ProbeStream) -> Option<(int, int)> {
    match opt_rate(opt_view(&s.avg_frame_rate)) {
        Some(r) => Some(r),
        None => opt_rate(opt_view(&s.r_frame_rate)),
    }
}

fn rate_in(o: &Option<String>) -> (r: Option<(i64, i64)>)
    ensures
        match r {
            Some(p) => opt_rate(opt_view(o)) == Some((p.0 as int, p.1 as int)),
            None => opt_rate(opt_view(o)) is None,
        },
{
    match o {
        Some(v) => parse_rate(v.as_str()),
        None => None,
    }
}

fn clone_opt(o: &Option<String>) -> (r: Option<String>)
    ensures
        r == *o,
{
    match o {
        Some(v) => Some(v.clone()),
        None => None,
    }
}

/// What the probe keeps of ffprobe's output, apart from the duration: the
/// first video stream's codec, size and frame rate, the first audio
/// stream's codec, and the creation timestamp.
pub fn summarize_probe(facts: &ProbeFacts) -> (r: ProbeSummary)
    requires
        facts_readable(*facts),
    ensures
        r.video_codec == (match first_of_type(facts.streams@, "video"@) {
            Some(i) => facts.streams@[i as int].codec_name,
            None => None,
        }),
        r.audio_codec == (match first_of_type(facts.streams@, "audio"@) {
            Some(i) => facts.streams@[i as int].codec_name,
            None => None,
        }),
        r.width == (match first_of_type(facts.streams@, "video"@) {
            Some(i) => facts.streams@[i as int].width,
            None => None,
        }),
        r.height == (match first_of_type(facts.streams@, "video"@) {
            Some(i) => facts.streams@[i as int].height,
            None => None,
        }),
        (match r.fps {
            Some(p) => Some((p.0 as int, p.1 as int)),
            None => None,
        }) == (match first_of_type(facts.streams@, "video"@) {
            Some(i) => stream_fps(facts.streams@[i as int]),
            None => None,
        }),
        opt_ts_view(r.creation_timestamp) == creation_of(*facts),
{
    let video = find_stream(&facts.streams, "video");
    let audio = find_stream(&facts.streams, "audio");
    let (video_codec, width, height, fps) = match video {
        Some(i) => {
            let s = &facts.streams[i];
            let fps = match rate_in(&s.avg_frame_rate) {
                Some(r) => Some(r),
                None => rate_in(&s.r_frame_rate),
            };
            (clone_opt(&s.codec_name), s.width, s.height, fps)
        },
        None => (None, None, None, None),
    };
    let audio_codec = match audio {
        Some(i) => clone_opt(&facts.streams[i].codec_name),
        None => None,
    };
    ProbeSummary {
        video_codec,
        audio_codec,
        width,
        height,
        fps,
        creation_timestamp: find_creation_timestamp(facts),
    }
}

// ---------------------------------------------------------------------------
// Probe records
// ---------------------------------------------------------------------------

/// `probe:<clip id>:ffprobe-full-v1`.
pub fn stable_probe_id(clip_id: &str) -> (r: String)
    ensures
        r@ == "probe:"@ + clip_id@ + seq![':'] + PROBE_VERSION@,
{
    let mut out = chars_of("probe:");
    append_str(&mut out, clip_id);
    out.push(':');
    append_str(&mut out, PROBE_VERSION);
    string_of(&out)
}

/// The error text kept of a failed probe: stderr trimmed (or the fallback
/// when it is blank), cut to 500 characters and `...`.
pub open spec fn short_error_text(stderr: Seq<char>, fallback: Seq<char>) -> Seq<char> {
    let text = if trim(stderr).len() == 0 {
        fallback
    } else {
        trim(stderr)
    };
    if text.len() <= 500 {
        text
    } else {
        text.take(500) + "..."@
    }
}

pub fn short_error(stderr: &str, fallback: &str) -> (r: String)
    ensures
        r@ == short_error_text(stderr@, fallback@),
{
    let t = trim_str(stderr);
    let text = if t.len() == 0 {
        chars_of(fallback)
    } else {
        t
    };
    if text.len() <= 500 {
        string_of(&text)
    } else {
        let mut out = subrange(&text, 0, 500);
        append_str(&mut out, "...");
        string_of(&out)
    }
}

pub open spec fn exit_code_json(code: Option<i32>) -> Seq<char> {
    match code {
        Some(c) => dec_int(c as int),
        None => json_null(),
    }
}

pub open spec fn error_probe_members(
    exit_code: Option<i32>,
    stdout: Seq<char>,
    stderr: Seq<char>,
    message: Seq<char>,
) -> Seq<(Seq<char>, Seq<char>)> {
    seq![
        ("exit_code"@, exit_code_json(exit_code)),
        ("message"@, json_string(message)),
        ("probe_version"@, json_string(PROBE_VERSION@)),
        ("schema_version"@, seq!['1']),
        ("status"@, json_string("error"@)),
        ("stderr"@, json_string(stderr)),
        ("stdout"@, json_string(stdout)),
    ]
}

/// The raw JSON kept of a failed probe: the command's exit code and output
/// and the failure message.
pub fn error_probe_json(exit_code: Option<i32>, stdout: &str, stderr: &str, message: &str) -> (r:
    String)
    ensures
        r@ == json_object(error_probe_members(exit_code, stdout@, stderr@, message@)),
{
    let mut m: Vec<Vec<char>> = Vec::new();
    let mut code: Vec<char> = Vec::new();
    match exit_code {
        Some(c) => push_dec_int(&mut code, c as i64),
        None => {
            append_str(&mut code, "null");
            proof {
                reveal_strlit("null");
            }
        },
    }
    assert(code@ =~= exit_code_json(exit_code));
    m.push(json_member_of("exit_code", &code));
    let v = json_str_text(message);
    m.push(json_member_of("message", &v));
    let v = json_str_text(PROBE_VERSION);
    m.push(json_member_of("probe_version", &v));
    let one = vec!['1'];
    assert(one@ =~= seq!['1']);
    m.push(json_member_of("schema_version", &one));
    let v = json_str_text("error");
    m.push(json_member_of("status", &v));
    let v = json_str_text(stderr);
    m.push(json_member_of("stderr", &v));
    let v = json_str_text(stdout);
    m.push(json_member_of("stdout", &v));
    proof {
        let members = error_probe_members(exit_code, stdout@, stderr@, message@);
        assert(texts(m@) =~= members_text(members));
        lemma_json_object(members, texts(m@));
    }
    let j = json_object_of(&m);
    string_of(&j)
}

pub const TIMESTAMP_UPDATE_NOTE: &'static str =
    "embedded media timestamp from ffprobe overrides filesystem fallback";

pub open spec fn timestamp_update_members(t: TimestampView) -> Seq<(Seq<char>, Seq<char>)> {
    seq![
        ("clip_created_at"@, json_string(t.value)),
        ("clip_created_at_offset"@, json_opt_string(t.offset)),
        ("clip_created_at_source"@, json_string(t.source)),
        ("note"@, json_string(TIMESTAMP_UPDATE_NOTE@)),
        ("probe_version"@, json_string(PROBE_VERSION@)),
        ("schema_version"@, seq!['1']),
        ("source"@, json_string("media_probe"@)),
        ("tag_key"@, json_string(t.tag_key)),
        ("tag_path"@, json_string(t.tag_path)),
    ]
}

/// The update of a clip's creation time from an embedded timestamp.
pub fn timestamp_update(clip_id: &str, timestamp: &CreationTimestamp) -> (r:
    ClipCreationTimestampUpdate)
    ensures
        r.clip_id@ == clip_id@,
        r.clip_created_at == timestamp.value,
        r.clip_created_at_source == timestamp.source,
        r.clip_created_at_offset == timestamp.offset,
        r.timestamp_evidence_json@ == json_object(timestamp_update_members(ts_view(*timestamp))),
{
    let mut m: Vec<Vec<char>> = Vec::new();
    let v = json_str_text(timestamp.value.as_str());
    m.push(json_member_of("clip_created_at", &v));
    let v = json_opt_text(&timestamp.offset);
    m.push(json_member_of("clip_created_at_offset", &v));
    let v = json_str_text(timestamp.source.as_str());
    m.push(json_member_of("clip_created_at_source", &v));
    let v = json_str_text(TIMESTAMP_UPDATE_NOTE);
    m.push(json_member_of("note", &v));
    let v = json_str_text(PROBE_VERSION);
    m.push(json_member_of("probe_version", &v));
    let one = vec!['1'];
    assert(one@ =~= seq!['1']);
    m.push(json_member_of("schema_version", &one));
    let v = json_str_text("media_probe");
    m.push(json_member_of("source", &v));
    let v = json_str_text(timestamp.tag_key.as_str());
    m.push(json_member_of("tag_key", &v));
    let v = json_str_text(timestamp.tag_path.as_str());
    m.push(json_member_of("tag_path", &v));
    proof {
        let members = timestamp_update_members(ts_view(*timestamp));
        assert(texts(m@) =~= members_text(members));
        lemma_json_object(members, texts(m@));
    }
    let j = json_object_of(&m);
    ClipCreationTimestampUpdate {
        clip_id: clip_id.to_owned(),
        clip_created_at: timestamp.value.clone(),
        clip_created_at_source: timestamp.source.clone(),
        clip_created_at_offset: clone_opt(&timestamp.offset),
        timestamp_evidence_json: string_of(&j),
    }
}

/// A clip of the source that a probe may read: its id and transport path.
#[derive(Debug, Clone, PartialEq, Eq)]
pub struct ProbeClipCandidate {
    pub clip_id: String,
    pub relative_path: String,
}

/// What one run of ffprobe gave back.
#[derive(Debug, Clone, PartialEq, Eq)]
pub struct ProbeCommandOutput {
    pub success: bool,
    pub exit_code: Option<i32>,
    pub stdout: String,
    pub stderr: String,
}

pub open spec fn selected_pred(selected: Seq<Seq<char>>) -> spec_fn(ProbeClipCandidate) -> bool {
    |c: ProbeClipCandidate| selected.contains(c.clip_id@)
}

/// The source's clips that the request selected, in the order they come.
pub fn probe_candidates(clips: &Vec<ProbeClipCandidate>, selected: &Vec<String>) -> (r: Vec<
    ProbeClipCandidate,
>)
    ensures
        r@ == clips@.filter(selected_pred(strings_view(selected@))),
{
    let ghost f = selected_pred(strings_view(selected@));
    let mut out: Vec<ProbeClipCandidate> = Vec::new();
    proof {
        reveal(Seq::filter);
    }
    let mut i: usize = 0;
    while i < clips.len()
        invariant
            i <= clips@.len(),
            f == selected_pred(strings_view(selected@)),
            out@ == clips@.take(i as int).filter(f),
        decreases clips@.len() - i,
    {
        let c = &clips[i];
        proof {
            assert(clips@.take(i + 1).drop_last() =~= clips@.take(i as int));
            assert(clips@.take(i + 1).last() == clips@[i as int]);
        }
        let chosen = contains_id(selected, c.clip_id.as_str());
        proof {
            assert(strings_view(selected@) =~= selected@.map_values(|s: String| s@));
            assert(f(clips@[i as int]) == chosen);
        }
        if chosen {
            let copy = ProbeClipCandidate {
                clip_id: c.clip_id.clone(),
                relative_path: c.relative_path.clone(),
            };
            assert(copy == clips@[i as int]);
            out.push(copy);
        }
        proof {
            reveal(Seq::filter);
        }
        i = i + 1;
    }
    assert(clips@.take(clips@.len() as int) =~= clips@);
    out
}

pub const EXIT_ERROR_MESSAGE: &'static str = "ffprobe exited with an error";

/// The record of a probe that failed with `message`; `error` is the text
/// kept for the operator.
pub open spec fn failed_snapshot(
    r: MediaProbeSnapshotRecord,
    candidate: ProbeClipCandidate,
    output: ProbeCommandOutput,
    probed_at: Seq<char>,
    message: Seq<char>,
    error: Seq<char>,
) -> bool {
    &&& r.probe_id@ == "probe:"@ + candidate.clip_id@ + seq![':'] + PROBE_VERSION@
    &&& r.clip_id@ == candidate.clip_id@
    &&& r.probe_version@ == PROBE_VERSION@
    &&& r.probed_at@ == probed_at
    &&& r.status@ == "error"@
    &&& r.duration_bits is None
    &&& r.video_codec is None && r.audio_codec is None
    &&& r.width is None && r.height is None
    &&& r.fps_num is None && r.fps_den is None
    &&& r.raw_probe_json@ == json_object(
        error_probe_members(output.exit_code, output.stdout@, output.stderr@, message),
    )
    &&& opt_view(&r.error) == Some(error)
}

/// The record of a probe whose output was read.
pub open spec fn read_snapshot(
    r: MediaProbeSnapshotRecord,
    candidate: ProbeClipCandidate,
    output: ProbeCommandOutput,
    probed_at: Seq<char>,
    facts: FactsView,
    duration_bits: Option<u64>,
) -> bool {
    let video = stream_of_type(facts, "video"@);
    &&& r.probe_id@ == "probe:"@ + candidate.clip_id@ + seq![':'] + PROBE_VERSION@
    &&& r.clip_id@ == candidate.clip_id@
    &&& r.probe_version@ == PROBE_VERSION@
    &&& r.probed_at@ == probed_at
    &&& r.status@ == "ok"@
    &&& r.duration_bits == duration_bits
    &&& opt_view(&r.video_codec) == (match video {
        Some(s) => s.codec_name,
        None => None,
    })
    &&& opt_view(&r.audio_codec) == (match stream_of_type(facts, "audio"@) {
        Some(s) => s.codec_name,
        None => None,
    })
    &&& r.width == (match video {
        Some(s) => s.width,
        None => None,
    })
    &&& r.height == (match video {
        Some(s) => s.height,
        None => None,
    })
    &&& (match (r.fps_num, r.fps_den) {
        (Some(n), Some(d)) => Some((n as int, d as int)),
        _ => None,
    }) == (match video {
        Some(s) => fps_of(s),
        None => None,
    })
    &&& (r.fps_num is Some <==> r.fps_den is Some)
    &&& r.raw_probe_json == output.stdout
    &&& r.error is None
}

/// The creation-time update of a clip from an embedded timestamp.
pub open spec fn timestamp_update_of(
    u: ClipCreationTimestampUpdate,
    clip_id: Seq<char>,
    t: TimestampView,
) -> bool {
    &&& u.clip_id@ == clip_id
    &&& u.clip_created_at@ == t.value
    &&& u.clip_created_at_source@ == t.source
    &&& opt_view(&u.clip_created_at_offset) == t.offset
    &&& u.timestamp_evidence_json@ == json_object(timestamp_update_members(t))
}

/// The snapshot of a probe whose output was read as `facts`, and the
/// creation-time update that the facts bring.
pub open spec fn parsed_snapshot(
    r: (MediaProbeSnapshotRecord, Option<ClipCreationTimestampUpdate>),
    candidate: ProbeClipCandidate,
    output: ProbeCommandOutput,
    probed_at: Seq<char>,
    facts: FactsView,
    duration_bits: Option<u64>,
) -> bool {
    &&& read_snapshot(r.0, candidate, output, probed_at, facts, duration_bits)
    &&& match creation_timestamp_of(facts) {
        Some(t) => r.1 matches Some(u) && timestamp_update_of(u, candidate.clip_id@, t),
        None => r.1 is None,
    }
}

/// The snapshot of a probe that failed, with no update.
pub open spec fn failed_output(
    r: (MediaProbeSnapshotRecord, Option<ClipCreationTimestampUpdate>),
    candidate: ProbeClipCandidate,
    output: ProbeCommandOutput,
    probed_at: Seq<char>,
    message: Seq<char>,
    error: Seq<char>,
) -> bool {
    failed_snapshot(r.0, candidate, output, probed_at, message, error) && r.1 is None
}

/// The snapshot recorded for a run of ffprobe that exited with an error.
pub open spec fn exit_failed(
    r: (MediaProbeSnapshotRecord, Option<ClipCreationTimestampUpdate>),
    candidate: ProbeClipCandidate,
    output: ProbeCommandOutput,
    probed_at: Seq<char>,
) -> bool {
    failed_output(
        r,
        candidate,
        output,
        probed_at,
        EXIT_ERROR_MESSAGE@,
        short_error_text(output.stderr@, EXIT_ERROR_MESSAGE@),
    )
}

/// The snapshot recorded for one run of ffprobe, and the creation-time
/// update it brings: a failure when the run failed or its output is no
/// JSON, else what is read of the output.
pub open spec fn output_snapshot(
    r: (MediaProbeSnapshotRecord, Option<ClipCreationTimestampUpdate>),
    candidate: ProbeClipCandidate,
    output: ProbeCommandOutput,
    probed_at: Seq<char>,
    duration_bits: Option<u64>,
) -> bool {
    if !output.success {
        exit_failed(r, candidate, output, probed_at)
    } else {
        match json_parse_error(output.stdout@) {
            Some(e) => failed_output(
                r,
                candidate,
                output,
                probed_at,
                "ffprobe JSON parse failed: "@ + e,
                "ffprobe JSON parse failed: "@ + e,
            ),
            None => parsed_snapshot(
                r,
                candidate,
                output,
                probed_at,
                stdout_facts(output.stdout@),
                duration_bits,
            ),
        }
    }
}

/// The offset of the creation timestamp that the probe picks from this
/// standard output can be read, or the output is no JSON.
pub open spec fn stdout_readable(stdout: Seq<char>) -> bool {
    json_parse_error(stdout) is Some || timestamp_readable(
        creation_timestamp_of(stdout_facts(stdout)),
    )
}

/// The snapshot recorded for one run of ffprobe, and the creation-time
/// update it brings. `parsed` is what was read of the standard output when
/// the run succeeded: the facts, or the parser's error text; `duration_bits`
/// are the bits of the duration read from it.
pub fn snapshot_from_parsed(
    candidate: &ProbeClipCandidate,
    output: &ProbeCommandOutput,
    probed_at: &str,
    duration_bits: Option<u64>,
    parsed: Result<ProbeFacts, String>,
) -> (r: (MediaProbeSnapshotRecord, Option<ClipCreationTimestampUpdate>))
    requires
        output.success ==> (parsed matches Ok(facts) ==> facts_readable(facts)),
    ensures
        !output.success ==> exit_failed(r, *candidate, *output, probed_at@),
        output.success ==> match parsed {
            Err(e) => failed_output(
                r,
                *candidate,
                *output,
                probed_at@,
                "ffprobe JSON parse failed: "@ + e@,
                "ffprobe JSON parse failed: "@ + e@,
            ),
            Ok(facts) => parsed_snapshot(
                r,
                *candidate,
                *output,
                probed_at@,
                facts_view(facts),
                duration_bits,
            ),
        },
{
    let probe_id = stable_probe_id(candidate.clip_id.as_str());
    if !output.success {
        let raw = error_probe_json(
            output.exit_code,
            output.stdout.as_str(),
            output.stderr.as_str(),
            EXIT_ERROR_MESSAGE,
        );
        let error = short_error(output.stderr.as_str(), EXIT_ERROR_MESSAGE);
        return (failed_record(probe_id, candidate, probed_at, raw, error), None);
    }
    match parsed {
        Err(e) => {
            let mut message = chars_of("ffprobe JSON parse failed: ");
            append_str(&mut message, e.as_str());
            let message = string_of(&message);
            let raw = error_probe_json(
                output.exit_code,
                output.stdout.as_str(),
                output.stderr.as_str(),
                message.as_str(),
            );
            (failed_record(probe_id, candidate, probed_at, raw, message), None)
        },
        Ok(facts) => {
            proof {
                lemma_creation_timestamp(facts);
                lemma_first_stream_of_type(facts.streams@, "video"@);
                lemma_first_stream_of_type(facts.streams@, "audio"@);
                match first_of_type(facts.streams@, "video"@) {
                    Some(i) => lemma_fps_of(facts.streams@[i as int]),
                    None => {},
                }
            }
            let summary = summarize_probe(&facts);
            let update = match &summary.creation_timestamp {
                Some(t) => Some(timestamp_update(candidate.clip_id.as_str(), t)),
                None => None,
            };
            let (fps_num, fps_den) = match summary.fps {
                Some((n, d)) => (Some(n), Some(d)),
                None => (None, None),
            };
            let record = MediaProbeSnapshotRecord {
                probe_id,
                clip_id: candidate.clip_id.clone(),
                probe_version: PROBE_VERSION.to_owned(),
                probed_at: probed_at.to_owned(),
                status: "ok".to_owned(),
                duration_bits,
                video_codec: summary.video_codec,
                audio_codec: summary.audio_codec,
                width: summary.width,
                height: summary.height,
                fps_num,
                fps_den,
                raw_probe_json: output.stdout.clone(),
                error: None,
            };
            (record, update)
        },
    }
}

/// The snapshot recorded for one run of ffprobe, and the creation-time
/// update it brings, reading the facts from the run's standard output.
/// `duration_bits` are the bits of the duration read from that output.
pub fn snapshot_from_output(
    candidate: &ProbeClipCandidate,
    output: &ProbeCommandOutput,
    probed_at: &str,
    duration_bits: Option<u64>,
) -> (r: (MediaProbeSnapshotRecord, Option<ClipCreationTimestampUpdate>))
    requires
        output.success ==> stdout_readable(output.stdout@),
    ensures
        output_snapshot(r, *candidate, *output, probed_at@, duration_bits),
{
    if !output.success {
        return snapshot_from_parsed(candidate, output, probed_at, duration_bits, Err(String::new()));
    }
    let parsed = parse_probe_stdout(output.stdout.as_str());
    proof {
        if parsed is Ok {
            lemma_creation_timestamp(parsed->Ok_0);
        }
    }
    snapshot_from_parsed(candidate, output, probed_at, duration_bits, parsed)
}

/// `snapshot_from_output` where the offset of the creation timestamp in the
/// output can be read, else `None`.
pub fn checked_snapshot_from_output(
    candidate: &ProbeClipCandidate,
    output: &ProbeCommandOutput,
    probed_at: &str,
    duration_bits: Option<u64>,
) -> (r: Option<(MediaProbeSnapshotRecord, Option<ClipCreationTimestampUpdate>)>)
    ensures
        r is None <==> output.success && !stdout_readable(output.stdout@),
        r matches Some(p) ==> output_snapshot(p, *candidate, *output, probed_at@, duration_bits),
{
    if !output.success {
        return Some(
            snapshot_from_parsed(candidate, output, probed_at, duration_bits, Err(String::new())),
        );
    }
    let parsed = parse_probe_stdout(output.stdout.as_str());
    match &parsed {
        Ok(facts) => {
            proof {
                lemma_creation_timestamp(*facts);
            }
            if !probe_facts_readable(facts) {
                return None;
            }
        },
        Err(_) => {},
    }
    Some(snapshot_from_parsed(candidate, output, probed_at, duration_bits, parsed))
}

fn failed_record(
    probe_id: String,
    candidate: &ProbeClipCandidate,
    probed_at: &str,
    raw: String,
    error: String,
) -> (r: MediaProbeSnapshotRecord)
    ensures
        r.probe_id == probe_id,
        r.clip_id == candidate.clip_id,
        r.probe_version@ == PROBE_VERSION@,
        r.probed_at@ == probed_at@,
        r.status@ == "error"@,
        r.duration_bits is None,
        r.video_codec is None && r.audio_codec is None,
        r.width is None && r.height is None,
        r.fps_num is None && r.fps_den is None,
        r.raw_probe_json == raw,
        r.error == Some(error),
{
    MediaProbeSnapshotRecord {
        probe_id,
        clip_id: candidate.clip_id.clone(),
        probe_version: PROBE_VERSION.to_owned(),
        probed_at: probed_at.to_owned(),
        status: "error".to_owned(),
        duration_bits: None,
        video_codec: None,
        audio_codec: None,
        width: None,
        height: None,
        fps_num: None,
        fps_den: None,
        raw_probe_json: raw,
        error: Some(error),
    }
}

} // verus!
