//! Discovery rules of the scanner: which files are media, which posters go
//! with them, the OS-neutral relative transport path, the content
//! fingerprint, and the timestamp evidence recorded for each clip. Walking
//! the directories and reading files is left to the caller.
use vstd::prelude::*;
use crate::db::{ClipDiscoveryRecord, UpsertKind};
use crate::digest::{sha256, sha256_digest};
use crate::fmt::{
    dec, dec_pad, hex_bytes, hex_of, json_bool, json_member_of, json_object, json_object_of,
    json_opt_string, json_opt_text, json_str_text, json_string, lemma_json_object, members_text,
    opt_view, push_dec_pad,
};
use crate::text::{
    append, append_str, chars_eq, chars_of, contains_char, copy_chars, ends_with, ends_with_chars,
    eq_pred, is_alpha_char, is_ascii_alpha, is_ascii_digit, is_digit_char, join, join_chars,
    last_index_of, lower, lower_chars, replace_char, replace_char_chars, rfind_char, string_of,
    subrange, texts, trail_by, trim, trim_chars, trim_end_by, trim_end_char,
};

verus! {

// ---------------------------------------------------------------------------
// UTC text of Unix times
// ---------------------------------------------------------------------------

/// Year, month and day of the proleptic Gregorian calendar for a count of
/// days since 1970-01-01 (the civil-from-days algorithm, with floor
/// division).
pub open spec fn civil(days: int) -> (int, int, int) {
    let z = days + 719468;
    let era = z / 146097;
    let doe = z - era * 146097;
    let yoe = (doe - doe / 1460 + doe / 36524 - doe / 146096) / 365;
    let y = yoe + era * 400;
    let doy = doe - (365 * yoe + yoe / 4 - yoe / 100);
    let mp = (5 * doy + 2) / 153;
    let day = doy - (153 * mp + 2) / 5 + 1;
    let month = if mp < 10 {
        mp + 3
    } else {
        mp - 9
    };
    (
        y + if month <= 2 {
            1int
        } else {
            0int
        },
        month,
        day,
    )
}

/// Every day from the Unix epoch on falls in a year from 1970, a month
/// from 1 to 12 and a day from 1 to 31.
pub proof fn lemma_civil_ranges(days: int)
    requires
        days >= 0,
    ensures
        civil(days).0 >= 1970,
        1 <= civil(days).1 <= 12,
        1 <= civil(days).2 <= 31,
{
    let z = days + 719468;
    let era = z / 146097;
    let doe = z - era * 146097;
    assert(0 <= doe < 146097);
    assert(era >= 4);
    let yoe = (doe - doe / 1460 + doe / 36524 - doe / 146096) / 365;
    assert(0 <= doe - doe / 1460 + doe / 36524 - doe / 146096 <= 146096 - 100 + 4 - 1);
    assert(0 <= yoe <= 399);
    let doy = doe - (365 * yoe + yoe / 4 - yoe / 100);
    assert(0 <= doy <= 365) by (nonlinear_arith)
        requires
            0 <= doe < 146097,
            yoe == (doe - doe / 1460 + doe / 36524 - doe / 146096) / 365,
            doy == doe - (365 * yoe + yoe / 4 - yoe / 100),
    ;
    let mp = (5 * doy + 2) / 153;
    assert(0 <= mp <= 11);
    let day = doy - (153 * mp + 2) / 5 + 1;
    assert(1 <= day <= 31);
}

/// `civil_from_unix_days`: year, month and day of a day count.
#[verifier::rlimit(40)]
pub fn civil_from_unix_days(days_since_unix_epoch: i64) -> (r: (i64, u32, u32))
    requires
        days_since_unix_epoch + 719468 <= i64::MAX,
        days_since_unix_epoch + 719468 - 146096 >= i64::MIN,
    ensures
        r.0 == civil(days_since_unix_epoch as int).0,
        r.1 == civil(days_since_unix_epoch as int).1 as u32,
        r.2 == civil(days_since_unix_epoch as int).2 as u32,
{
    let z: i64 = days_since_unix_epoch + 719468;
    let era: i64 = if z >= 0 {
        z / 146097
    } else {
        0 - ((146096 - z) / 146097)
    };
    assert(era == (z as int) / 146097);
    let doe: i64 = z - era * 146097;
    assert(0 <= doe < 146097);
    let yoe: i64 = (doe - doe / 1460 + doe / 36524 - doe / 146096) / 365;
    let y: i64 = yoe + era * 400;
    let doy: i64 = doe - (365 * yoe + yoe / 4 - yoe / 100);
    let mp: i64 = (5 * doy + 2) / 153;
    let day: i64 = doy - (153 * mp + 2) / 5 + 1;
    let month: i64 = if mp < 10 {
        mp + 3
    } else {
        mp - 9
    };
    let year: i64 = y + if month <= 2 {
        1i64
    } else {
        0i64
    };
    (year, month as u32, day as u32)
}

/// `YYYY-MM-DDTHH:MM:SS[.fraction]Z`; the fraction is the nanoseconds
/// without trailing zeros, and is left out when there are none.
pub open spec fn utc_text(seconds: nat, nanos: nat) -> Seq<char> {
    let days = seconds / 86400;
    let sod = seconds % 86400;
    let (y, m, d) = civil(days as int);
    let date = dec_pad(y as nat, 4) + seq!['-'] + dec_pad(m as nat, 2) + seq!['-'] + dec_pad(
        d as nat,
        2,
    ) + seq!['T'] + dec_pad(sod / 3600, 2) + seq![':'] + dec_pad((sod % 3600) / 60, 2) + seq![':']
        + dec_pad(sod % 60, 2);
    if nanos == 0 {
        date + seq!['Z']
    } else {
        date + seq!['.'] + trim_end_by(dec_pad(nanos, 9), eq_pred('0')) + seq!['Z']
    }
}

/// The UTC text of a Unix time given as seconds and nanoseconds.
pub fn format_unix_utc(seconds: u64, nanos: u32) -> (r: String)
    ensures
        r@ == utc_text(seconds as nat, nanos as nat),
{
    let days: u64 = seconds / 86400;
    let sod: u64 = seconds % 86400;
    proof {
        lemma_civil_ranges(days as int);
    }
    let (year, month, day) = civil_from_unix_days(days as i64);
    let mut out: Vec<char> = Vec::new();
    push_dec_pad(&mut out, year as u64, 4);
    out.push('-');
    push_dec_pad(&mut out, month as u64, 2);
    out.push('-');
    push_dec_pad(&mut out, day as u64, 2);
    out.push('T');
    push_dec_pad(&mut out, sod / 3600, 2);
    out.push(':');
    push_dec_pad(&mut out, (sod % 3600) / 60, 2);
    out.push(':');
    push_dec_pad(&mut out, sod % 60, 2);
    let ghost date = out@;
    if nanos == 0 {
        out.push('Z');
    } else {
        out.push('.');
        let mut frac: Vec<char> = Vec::new();
        push_dec_pad(&mut frac, nanos as u64, 9);
        assert(frac@ =~= dec_pad(nanos as nat, 9));
        let trimmed = trim_end_char(&frac, '0');
        append(&mut out, &trimmed);
        out.push('Z');
    }
    proof {
        let (y, m, d) = civil(days as int);
        assert(year as nat == y as nat);
        assert(month as nat == m as nat);
        assert(day as nat == d as nat);
    }
    assert(out@ =~= utc_text(seconds as nat, nanos as nat));
    string_of(&out)
}

#[verifier::external_type_specification]
#[verifier::external_body]
pub struct ExSystemTime(std::time::SystemTime);

/// Calls `SystemTime::duration_since(UNIX_EPOCH)` and, for a time not
/// before the epoch, returns the whole seconds and the nanoseconds after them
/// (`Duration::as_secs`, `Duration::subsec_nanos`). Trusted: the nanoseconds
/// are below one second. Which seconds come back is not stated: a
/// `SystemTime` is opaque here.
#[verifier::external_body]
fn since_unix_epoch(time: std::time::SystemTime) -> (r: Option<(u64, u32)>)
    ensures
        r matches Some(p) ==> p.1 < 1_000_000_000,
{
    match time.duration_since(std::time::UNIX_EPOCH) {
        Ok(d) => Some((d.as_secs(), d.subsec_nanos())),
        Err(_) => None,
    }
}

/// The UTC text of a file time, when it is not before the Unix epoch.
pub fn system_time_to_utc_text(time: std::time::SystemTime) -> (r: Option<String>)
    ensures
        r matches Some(t) ==> exists|s: u64, n: u32|
            n < 1_000_000_000 && t@ == #[trigger] utc_text(s as nat, n as nat),
{
    match since_unix_epoch(time) {
        Some((s, n)) => {
            let t = format_unix_utc(s, n);
            assert(t@ == utc_text(s as nat, n as nat));
            Some(t)
        },
        None => None,
    }
}

// ---------------------------------------------------------------------------
// Media and poster files
// ---------------------------------------------------------------------------

pub open spec fn media_extensions() -> Seq<Seq<char>> {
    seq![
        "mov"@, "mp4"@, "m4v"@, "mxf"@, "mts"@, "m2ts"@, "avi"@, "mkv"@, "r3d"@, "braw"@, "ari"@,
        "crm"@, "cine"@, "wav"@, "aif"@, "aiff"@, "flac"@,
    ]
}

pub open spec fn poster_extensions() -> Seq<Seq<char>> {
    seq!["thm"@, "jpg"@, "jpeg"@]
}

/// The media files a scan keeps are exactly those with one of the
/// documented container or audio extensions.
pub proof fn lemma_media_extensions(e: Seq<char>)
    ensures
        media_extensions().contains(e) <==> (e == "mov"@ || e == "mp4"@ || e == "m4v"@ || e
            == "mxf"@ || e == "mts"@ || e == "m2ts"@ || e == "avi"@ || e == "mkv"@ || e == "r3d"@
            || e == "braw"@ || e == "ari"@ || e == "crm"@ || e == "cine"@ || e == "wav"@ || e
            == "aif"@ || e == "aiff"@ || e == "flac"@),
{
    let m = media_extensions();
    if media_extensions().contains(e) {
        let i = choose|i: int| 0 <= i < m.len() && m[i] == e;
        assert(0 <= i < 17);
    }
    assert(m[0] == "mov"@ && m[1] == "mp4"@ && m[2] == "m4v"@ && m[3] == "mxf"@);
    assert(m[4] == "mts"@ && m[5] == "m2ts"@ && m[6] == "avi"@ && m[7] == "mkv"@);
    assert(m[8] == "r3d"@ && m[9] == "braw"@ && m[10] == "ari"@ && m[11] == "crm"@);
    assert(m[12] == "cine"@ && m[13] == "wav"@ && m[14] == "aif"@ && m[15] == "aiff"@);
    assert(m[16] == "flac"@);
}

/// The poster files a scan keeps are exactly those with a `thm`, `jpg` or
/// `jpeg` extension.
pub proof fn lemma_poster_extensions(e: Seq<char>)
    ensures
        poster_extensions().contains(e) <==> (e == "thm"@ || e == "jpg"@ || e == "jpeg"@),
{
    let m = poster_extensions();
    if poster_extensions().contains(e) {
        let i = choose|i: int| 0 <= i < m.len() && m[i] == e;
        assert(0 <= i < 3);
    }
    assert(m[0] == "thm"@ && m[1] == "jpg"@ && m[2] == "jpeg"@);
}

/// The extension of a file name as `Path::extension` finds it (after the
/// last `.`, when something precedes that dot), trimmed and lowercased;
/// `None` when there is none or it is blank.
pub open spec fn extension_of(file_name: Seq<char>) -> Option<Seq<char>> {
    match last_index_of(file_name, '.') {
        Some(i) => if i > 0 && trim(file_name.skip((i + 1) as int)).len() > 0 {
            Some(lower(trim(file_name.skip((i + 1) as int))))
        } else {
            None
        },
        None => None,
    }
}

pub fn normalized_extension(file_name: &str) -> (r: Option<String>)
    ensures
        opt_view(&r) == extension_of(file_name@),
{
    let name = chars_of(file_name);
    match rfind_char(&name, '.') {
        Some(i) => {
            if i > 0 {
                let n = name.len();
                let after = subrange(&name, i + 1, n);
                assert(after@ =~= name@.skip((i + 1) as int));
                let t = trim_chars(&after);
                if t.len() > 0 {
                    let l = lower_chars(&t);
                    return Some(string_of(&l));
                }
            }
            None
        },
        None => None,
    }
}

fn member_of(e: &[char], list: &[&str]) -> (r: bool)
    ensures
        r == list@.map_values(|s: &str| s@).contains(e@),
{
    let ghost views = list@.map_values(|s: &str| s@);
    let mut i: usize = 0;
    while i < list.len()
        invariant
            views == list@.map_values(|s: &str| s@),
            i <= list@.len(),
            forall|j: int| 0 <= j < i ==> views[j] != e@,
        decreases list@.len() - i,
    {
        let c = chars_of(list[i]);
        if chars_eq(&c, e) {
            assert(views[i as int] == e@);
            return true;
        }
        i = i + 1;
    }
    false
}

pub fn is_media_extension(extension: &Option<String>) -> (r: bool)
    ensures
        r == (match opt_view(extension) {
            Some(e) => media_extensions().contains(e),
            None => false,
        }),
{
    match extension {
        Some(e) => {
            let list = [
                "mov",
                "mp4",
                "m4v",
                "mxf",
                "mts",
                "m2ts",
                "avi",
                "mkv",
                "r3d",
                "braw",
                "ari",
                "crm",
                "cine",
                "wav",
                "aif",
                "aiff",
                "flac",
            ];
            let ec = chars_of(e.as_str());
            let r = member_of(&ec, &list);
            assert(list@.map_values(|s: &str| s@) =~= media_extensions());
            r
        },
        None => false,
    }
}

pub fn is_poster_extension(extension: &Option<String>) -> (r: bool)
    ensures
        r == (match opt_view(extension) {
            Some(e) => poster_extensions().contains(e),
            None => false,
        }),
{
    match extension {
        Some(e) => {
            let list = ["thm", "jpg", "jpeg"];
            let ec = chars_of(e.as_str());
            let r = member_of(&ec, &list);
            assert(list@.map_values(|s: &str| s@) =~= poster_extensions());
            r
        },
        None => false,
    }
}

pub open spec fn digit_pred() -> spec_fn(char) -> bool {
    |c: char| is_ascii_digit(c)
}

/// The stem without a trailing take suffix: when the stem ends in a letter
/// followed only by digits (`C001`), what precedes that letter, trimmed.
pub open spec fn base_stem(stem: Seq<char>) -> Seq<char> {
    let t = trim(stem);
    let k = trail_by(t, digit_pred());
    if k < t.len() && t.len() - 1 - k >= 1 && is_ascii_alpha(t[t.len() - 1 - k]) {
        trim(t.take(t.len() - 1 - k))
    } else {
        t
    }
}

proof fn lemma_trail_digits(t: Seq<char>, j: int)
    requires
        0 <= j <= t.len(),
        forall|x: int| j <= x < t.len() ==> is_ascii_digit(t[x]),
        j == 0 || !is_ascii_digit(t[j - 1]),
    ensures
        trail_by(t, digit_pred()) == t.len() - j,
    decreases t.len() - j,
{
    if t.len() > j {
        assert(t.drop_last().len() == t.len() - 1);
        assert forall|x: int| j <= x < t.drop_last().len() implies is_ascii_digit(
            t.drop_last()[x],
        ) by {}
        lemma_trail_digits(t.drop_last(), j);
    }
}

pub fn clip_base_stem(stem: &str) -> (r: String)
    ensures
        r@ == base_stem(stem@),
{
    let t = trim_chars(&chars_of(stem));
    let n = t.len();
    let mut j: usize = n;
    while j > 0 && is_digit_char(t[j - 1])
        invariant
            j <= n,
            n == t@.len(),
            forall|x: int| j <= x < n ==> is_ascii_digit(t@[x]),
        decreases j,
    {
        j = j - 1;
    }
    proof {
        lemma_trail_digits(t@, j as int);
    }
    if j >= 2 && is_alpha_char(t[j - 1]) {
        let head = subrange(&t, 0, j - 1);
        let h = trim_chars(&head);
        assert(head@ =~= t@.take(t@.len() - 1 - trail_by(t@, digit_pred())));
        string_of(&h)
    } else {
        string_of(&t)
    }
}

/// The key under which posters and media are matched.
pub fn poster_match_key(stem: &str) -> (r: String)
    ensures
        r@ == lower(base_stem(stem@)),
{
    let b = clip_base_stem(stem);
    let l = lower_chars(&chars_of(b.as_str()));
    string_of(&l)
}

/// A poster image that may belong to a clip.
#[derive(Debug, Clone, PartialEq, Eq)]
pub struct PosterCandidate {
    pub relative_path: String,
    pub source: String,
    pub same_directory: bool,
}

pub open spec fn poster_source_text(extension: Option<Seq<char>>) -> Seq<char> {
    match extension {
        Some(e) => if e == "thm"@ {
            "card_thm"@
        } else if e == "jpg"@ || e == "jpeg"@ {
            "card_jpg"@
        } else {
            "card_poster"@
        },
        None => "card_poster"@,
    }
}

/// A `.thm` poster is recorded as `card_thm`, a `.jpg` or `.jpeg` one as
/// `card_jpg`, any other as `card_poster`.
pub proof fn lemma_poster_source_kinds(extension: Option<Seq<char>>)
    ensures
        (poster_source_text(extension) == "card_thm"@) <==> extension == Some("thm"@),
        (poster_source_text(extension) == "card_jpg"@) <==> (extension == Some("jpg"@)
            || extension == Some("jpeg"@)),
        (poster_source_text(extension) == "card_poster"@) <==> !(extension == Some("thm"@)
            || extension == Some("jpg"@) || extension == Some("jpeg"@)),
{
    reveal_strlit("card_thm");
    reveal_strlit("card_jpg");
    reveal_strlit("card_poster");
    reveal_strlit("thm");
    reveal_strlit("jpg");
    reveal_strlit("jpeg");
    assert("thm"@[0] != "jpg"@[0] && "thm"@.len() != "jpeg"@.len());
    assert("card_thm"@[5] != "card_jpg"@[5]);
    assert("card_thm"@.len() != "card_poster"@.len());
    assert("card_jpg"@.len() != "card_poster"@.len());
}

/// The poster source recorded for a poster file with this extension.
pub fn poster_source(extension: &Option<String>) -> (r: String)
    ensures
        r@ == poster_source_text(opt_view(extension)),
{
    match extension {
        Some(e) => {
            if crate::text::str_eq(e.as_str(), "thm") {
                "card_thm".to_owned()
            } else if crate::text::str_eq(e.as_str(), "jpg") || crate::text::str_eq(
                e.as_str(),
                "jpeg",
            ) {
                "card_jpg".to_owned()
            } else {
                "card_poster".to_owned()
            }
        },
        None => "card_poster".to_owned(),
    }
}

/// The directory of the media file, with `/` separators, ends with the
/// poster's directory.
pub open spec fn same_directory(media_dir: Option<Seq<char>>, poster_relative_path: Seq<char>) -> bool {
    match media_dir {
        None => false,
        Some(d) => match last_index_of(poster_relative_path, '/') {
            None => false,
            Some(i) => ends_with(replace_char(d, '\\', '/'), poster_relative_path.take(i as int)),
        },
    }
}

pub fn poster_same_directory(media_dir: &Option<String>, poster_relative_path: &str) -> (r: bool)
    ensures
        r == same_directory(opt_view(media_dir), poster_relative_path@),
{
    match media_dir {
        None => false,
        Some(d) => {
            let rel = chars_of(poster_relative_path);
            match rfind_char(&rel, '/') {
                None => false,
                Some(i) => {
                    let parent = subrange(&rel, 0, i);
                    let dir = replace_char_chars(&chars_of(d.as_str()), '\\', '/');
                    ends_with_chars(&dir, &parent)
                },
            }
        },
    }
}

/// `a` sorts before `b` as Rust orders strings.
pub open spec fn text_lt(a: Seq<char>, b: Seq<char>) -> bool
    decreases a.len(),
{
    if a.len() == 0 {
        b.len() > 0
    } else if b.len() == 0 {
        false
    } else if a[0] != b[0] {
        a[0] < b[0]
    } else {
        text_lt(a.drop_first(), b.drop_first())
    }
}

proof fn lemma_text_lt_trans(a: Seq<char>, b: Seq<char>, c: Seq<char>)
    requires
        text_lt(a, b),
        text_lt(b, c),
    ensures
        text_lt(a, c),
    decreases a.len(),
{
    if a.len() > 0 && b.len() > 0 && c.len() > 0 && a[0] == b[0] && b[0] == c[0] {
        lemma_text_lt_trans(a.drop_first(), b.drop_first(), c.drop_first());
    }
}

proof fn lemma_text_lt_total(a: Seq<char>, b: Seq<char>)
    ensures
        text_lt(a, b) || text_lt(b, a) || a =~= b,
    decreases a.len(),
{
    if a.len() > 0 && b.len() > 0 && a[0] == b[0] {
        lemma_text_lt_total(a.drop_first(), b.drop_first());
        if a.drop_first() =~= b.drop_first() {
            assert(a =~= seq![a[0]] + a.drop_first());
            assert(b =~= seq![b[0]] + b.drop_first());
        }
    }
}

proof fn lemma_text_lt_irrefl(a: Seq<char>)
    ensures
        !text_lt(a, a),
    decreases a.len(),
{
    if a.len() > 0 {
        lemma_text_lt_irrefl(a.drop_first());
    }
}

fn text_less(a: &[char], b: &[char]) -> (r: bool)
    ensures
        r == text_lt(a@, b@),
{
    let mut i: usize = 0;
    assert(a@.skip(0) =~= a@);
    assert(b@.skip(0) =~= b@);
    while i < a.len() && i < b.len() && a[i] == b[i]
        invariant
            i <= a@.len(),
            i <= b@.len(),
            text_lt(a@, b@) == text_lt(a@.skip(i as int), b@.skip(i as int)),
        decreases a@.len() - i,
    {
        proof {
            assert(a@.skip(i as int).drop_first() =~= a@.skip(i + 1));
            assert(b@.skip(i as int).drop_first() =~= b@.skip(i + 1));
        }
        i = i + 1;
    }
    if i == a.len() {
        i < b.len()
    } else if i == b.len() {
        false
    } else {
        a[i] < b[i]
    }
}

/// `order` with `i` inserted after every index whose lowercased name does
/// not sort after the lowercased name `i`: one step of a stable sort.
pub open spec fn insert_in_order(order: Seq<int>, i: int, names: Seq<Seq<char>>) -> Seq<int>
    decreases order.len(),
{
    if order.len() == 0 {
        seq![i]
    } else if text_lt(lower(names[i]), lower(names[order.last()])) {
        insert_in_order(order.drop_last(), i, names).push(order.last())
    } else {
        order.push(i)
    }
}

/// The indices of the first `n` names in the order of a stable sort by
/// their ASCII-lowercased text, as `sort_by_key` with `to_ascii_lowercase`
/// orders them.
pub open spec fn case_order(names: Seq<Seq<char>>, n: nat) -> Seq<int>
    decreases n,
{
    if n == 0 {
        seq![]
    } else {
        insert_in_order(case_order(names, (n - 1) as nat), n - 1, names)
    }
}

proof fn lemma_insert_at(order: Seq<int>, i: int, names: Seq<Seq<char>>, k: int)
    requires
        0 <= k <= order.len(),
        forall|j: int| k <= j < order.len() ==> text_lt(lower(names[i]), lower(names[order[j]])),
        k > 0 ==> !text_lt(lower(names[i]), lower(names[order[k - 1]])),
    ensures
        insert_in_order(order, i, names) == order.insert(k, i),
    decreases order.len(),
{
    if order.len() == 0 {
        assert(order.insert(k, i) =~= seq![i]);
    } else if k == order.len() {
        assert(order.insert(k, i) =~= order.push(i));
    } else {
        assert(order.last() == order[order.len() - 1]);
        let rest = order.drop_last();
        assert forall|j: int| k <= j < rest.len() implies text_lt(
            lower(names[i]),
            lower(names[rest[j]]),
        ) by {
            assert(rest[j] == order[j]);
        }
        if k > 0 {
            assert(rest[k - 1] == order[k - 1]);
        }
        lemma_insert_at(rest, i, names, k);
        assert(rest.insert(k, i).push(order.last()) =~= order.insert(k, i));
    }
}

/// The indices of the names in the order of a stable sort by their
/// ASCII-lowercased text.
pub fn order_ignoring_case(names: &Vec<String>) -> (r: Vec<usize>)
    ensures
        r@.map_values(|i: usize| i as int) == case_order(crate::fmt::strings_view(names@), names@.len()),
{
    let ghost sv = crate::fmt::strings_view(names@);
    let mut keys: Vec<Vec<char>> = Vec::new();
    let mut m: usize = 0;
    while m < names.len()
        invariant
            m <= names@.len(),
            sv == crate::fmt::strings_view(names@),
            keys@.len() == m,
            forall|j: int| 0 <= j < m ==> #[trigger] keys@[j]@ == lower(sv[j]),
        decreases names@.len() - m,
    {
        keys.push(lower_chars(&chars_of(names[m].as_str())));
        m = m + 1;
    }
    let mut order: Vec<usize> = Vec::new();
    let mut i: usize = 0;
    while i < names.len()
        invariant
            i <= names@.len(),
            sv == crate::fmt::strings_view(names@),
            keys@.len() == names@.len(),
            forall|j: int| 0 <= j < names@.len() ==> #[trigger] keys@[j]@ == lower(sv[j]),
            order@.map_values(|x: usize| x as int) == case_order(sv, i as nat),
            forall|j: int| 0 <= j < order@.len() ==> #[trigger] order@[j] < i,
        decreases names@.len() - i,
    {
        let ghost before = order@.map_values(|x: usize| x as int);
        let mut k: usize = order.len();
        while k > 0 && text_less(&keys[i], &keys[order[k - 1]])
            invariant
                k <= order@.len(),
                i < names@.len(),
                keys@.len() == names@.len(),
                forall|j: int| 0 <= j < names@.len() ==> #[trigger] keys@[j]@ == lower(sv[j]),
                forall|j: int| 0 <= j < order@.len() ==> #[trigger] order@[j] < i,
                before == order@.map_values(|x: usize| x as int),
                forall|j: int|
                    k <= j < order@.len() ==> text_lt(lower(sv[i as int]), lower(sv[before[j]])),
            decreases k,
        {
            assert(before[k - 1] == order@[k - 1] as int);
            k = k - 1;
        }
        proof {
            if k > 0 {
                assert(before[k - 1] == order@[k - 1] as int);
            }
            lemma_insert_at(before, i as int, sv, k as int);
        }
        let ghost prev = order@;
        order.insert(k, i);
        proof {
            assert(order@.map_values(|x: usize| x as int) =~= before.insert(k as int, i as int));
            assert forall|j: int| 0 <= j < order@.len() implies #[trigger] order@[j] < i + 1 by {
                if j < k {
                    assert(order@[j] == prev[j]);
                } else if j > k {
                    assert(order@[j] == prev[j - 1]);
                }
            }
        }
        i = i + 1;
    }
    order
}

pub open spec fn ext_rank(x: PosterCandidate) -> int {
    if x.source@ == "card_thm"@ {
        0
    } else {
        1
    }
}

pub open spec fn dir_rank(x: PosterCandidate) -> int {
    if x.same_directory {
        0
    } else {
        1
    }
}

/// Posters rank by extension (THM first), then by whether they sit in the
/// media file's directory, then by relative path.
pub open spec fn rank_lt(x: PosterCandidate, y: PosterCandidate) -> bool {
    ext_rank(x) < ext_rank(y) || (ext_rank(x) == ext_rank(y) && (dir_rank(x) < dir_rank(y) || (
    dir_rank(x) == dir_rank(y) && text_lt(x.relative_path@, y.relative_path@))))
}

fn rank_less(x: &PosterCandidate, y: &PosterCandidate) -> (r: bool)
    ensures
        r == rank_lt(*x, *y),
{
    let ex: u8 = if crate::text::str_eq(x.source.as_str(), "card_thm") {
        0
    } else {
        1
    };
    let ey: u8 = if crate::text::str_eq(y.source.as_str(), "card_thm") {
        0
    } else {
        1
    };
    let dx: u8 = if x.same_directory {
        0
    } else {
        1
    };
    let dy: u8 = if y.same_directory {
        0
    } else {
        1
    };
    ex < ey || (ex == ey && (dx < dy || (dx == dy && text_less(
        &chars_of(x.relative_path.as_str()),
        &chars_of(y.relative_path.as_str()),
    ))))
}

/// If `a` ranks before `b` and `c` does not rank before `b`, then `a`
/// ranks before `c`.
proof fn lemma_rank_step(a: PosterCandidate, b: PosterCandidate, c: PosterCandidate)
    requires
        rank_lt(a, b),
        !rank_lt(c, b),
    ensures
        rank_lt(a, c),
{
    lemma_text_lt_total(b.relative_path@, c.relative_path@);
    if text_lt(a.relative_path@, b.relative_path@) && text_lt(
        b.relative_path@,
        c.relative_path@,
    ) {
        lemma_text_lt_trans(a.relative_path@, b.relative_path@, c.relative_path@);
    }
}

proof fn lemma_rank_trans(x: PosterCandidate, y: PosterCandidate, z: PosterCandidate)
    requires
        rank_lt(x, y),
        rank_lt(y, z),
    ensures
        rank_lt(x, z),
{
    if text_lt(x.relative_path@, y.relative_path@) && text_lt(
        y.relative_path@,
        z.relative_path@,
    ) {
        lemma_text_lt_trans(x.relative_path@, y.relative_path@, z.relative_path@);
    }
}

/// The same candidate, its `same_directory` computed for the media file.
pub open spec fn placed(c: PosterCandidate, media_dir: Option<Seq<char>>) -> PosterCandidate {
    PosterCandidate {
        relative_path: c.relative_path,
        source: c.source,
        same_directory: same_directory(media_dir, c.relative_path@),
    }
}

/// The first best-ranked candidate, once each knows whether it sits in the
/// media file's directory.
pub open spec fn is_best_poster(
    candidates: Seq<PosterCandidate>,
    media_dir: Option<Seq<char>>,
    i: int,
) -> bool {
    &&& 0 <= i < candidates.len()
    &&& forall|j: int|
        0 <= j < i ==> #[trigger] rank_lt(
            placed(candidates[i], media_dir),
            placed(candidates[j], media_dir),
        )
    &&& forall|j: int|
        i < j < candidates.len() ==> !#[trigger] rank_lt(
            placed(candidates[j], media_dir),
            placed(candidates[i], media_dir),
        )
}

/// A THM poster is always chosen over posters of other kinds, wherever they
/// sit: when any candidate is a `card_thm`, the chosen one is.
pub proof fn lemma_thm_poster_preferred(
    candidates: Seq<PosterCandidate>,
    media_dir: Option<Seq<char>>,
    i: int,
    k: int,
)
    requires
        is_best_poster(candidates, media_dir, i),
        0 <= k < candidates.len(),
        candidates[k].source@ == "card_thm"@,
    ensures
        candidates[i].source@ == "card_thm"@,
{
    if k < i {
        assert(rank_lt(placed(candidates[i], media_dir), placed(candidates[k], media_dir)));
    } else if k > i {
        assert(!rank_lt(placed(candidates[k], media_dir), placed(candidates[i], media_dir)));
    }
}

/// Among posters of the same kind (THM or not), one in the media file's own
/// directory is chosen over one elsewhere: when a candidate of the chosen
/// one's kind sits in that directory, so does the chosen one.
pub proof fn lemma_same_directory_poster_preferred(
    candidates: Seq<PosterCandidate>,
    media_dir: Option<Seq<char>>,
    i: int,
    k: int,
)
    requires
        is_best_poster(candidates, media_dir, i),
        0 <= k < candidates.len(),
        (candidates[k].source@ == "card_thm"@) == (candidates[i].source@ == "card_thm"@),
        same_directory(media_dir, candidates[k].relative_path@),
    ensures
        same_directory(media_dir, candidates[i].relative_path@),
{
    if k < i {
        assert(rank_lt(placed(candidates[i], media_dir), placed(candidates[k], media_dir)));
    } else if k > i {
        assert(!rank_lt(placed(candidates[k], media_dir), placed(candidates[i], media_dir)));
    }
}

proof fn lemma_text_lt_irreflexive(a: Seq<char>)
    ensures
        !text_lt(a, a),
    decreases a.len(),
{
    if a.len() > 0 {
        lemma_text_lt_irreflexive(a.drop_first());
    }
}

/// Among posters of the same kind that both sit in the media file's
/// directory or both elsewhere, the chosen one has the least relative path:
/// no other such candidate sorts before it.
pub proof fn lemma_poster_least_path(
    candidates: Seq<PosterCandidate>,
    media_dir: Option<Seq<char>>,
    i: int,
    k: int,
)
    requires
        is_best_poster(candidates, media_dir, i),
        0 <= k < candidates.len(),
        (candidates[k].source@ == "card_thm"@) == (candidates[i].source@ == "card_thm"@),
        same_directory(media_dir, candidates[k].relative_path@) == same_directory(
            media_dir,
            candidates[i].relative_path@,
        ),
    ensures
        !text_lt(candidates[k].relative_path@, candidates[i].relative_path@),
{
    let a = candidates[i].relative_path@;
    let b = candidates[k].relative_path@;
    if k < i {
        assert(rank_lt(placed(candidates[i], media_dir), placed(candidates[k], media_dir)));
        if text_lt(b, a) {
            lemma_text_lt_trans(a, b, a);
            lemma_text_lt_irreflexive(a);
        }
    } else if k > i {
        assert(!rank_lt(placed(candidates[k], media_dir), placed(candidates[i], media_dir)));
    } else {
        lemma_text_lt_irreflexive(a);
    }
}

fn place(c: &PosterCandidate, media_dir: &Option<String>) -> (r: PosterCandidate)
    ensures
        r == placed(*c, opt_view(media_dir)),
{
    PosterCandidate {
        relative_path: c.relative_path.clone(),
        source: c.source.clone(),
        same_directory: poster_same_directory(media_dir, c.relative_path.as_str()),
    }
}

/// The poster chosen for a media file among the candidates that share its
/// match key.
pub fn find_poster_for_media(media_dir: &Option<String>, candidates: &Vec<PosterCandidate>) -> (r:
    Option<PosterCandidate>)
    ensures
        candidates@.len() == 0 ==> r is None,
        r matches Some(p) ==> exists|i: int|
            is_best_poster(candidates@, opt_view(media_dir), i) && p == placed(
                #[trigger] candidates@[i],
                opt_view(media_dir),
            ),
        candidates@.len() > 0 ==> r is Some,
{
    if candidates.len() == 0 {
        return None;
    }
    let ghost md = opt_view(media_dir);
    let mut best = place(&candidates[0], media_dir);
    let mut bi: usize = 0;
    let mut i: usize = 1;
    while i < candidates.len()
        invariant
            md == opt_view(media_dir),
            1 <= i <= candidates@.len(),
            bi < i,
            best == placed(candidates@[bi as int], md),
            forall|j: int|
                0 <= j < bi ==> #[trigger] rank_lt(
                    placed(candidates@[bi as int], md),
                    placed(candidates@[j], md),
                ),
            forall|j: int|
                bi < j < i ==> !#[trigger] rank_lt(
                    placed(candidates@[j], md),
                    placed(candidates@[bi as int], md),
                ),
        decreases candidates@.len() - i,
    {
        let c = place(&candidates[i], media_dir);
        if rank_less(&c, &best) {
            proof {
                assert forall|j: int| 0 <= j < i implies #[trigger] rank_lt(
                    placed(candidates@[i as int], md),
                    placed(candidates@[j], md),
                ) by {
                    if j < bi {
                        lemma_rank_trans(
                            placed(candidates@[i as int], md),
                            placed(candidates@[bi as int], md),
                            placed(candidates@[j], md),
                        );
                    } else if j > bi {
                        lemma_rank_step(
                            placed(candidates@[i as int], md),
                            placed(candidates@[bi as int], md),
                            placed(candidates@[j], md),
                        );
                    }
                }
            }
            best = c;
            bi = i;
        }
        i = i + 1;
    }
    proof {
        assert(is_best_poster(candidates@, md, bi as int));
    }
    Some(best)
}

// ---------------------------------------------------------------------------
// Relative transport paths
// ---------------------------------------------------------------------------

/// One component of a path below the access root.
#[derive(Debug, Clone, PartialEq, Eq)]
pub enum PathPart {
    Normal(String),
    CurrentDir,
    Other,
}

#[derive(Debug, Clone, Copy, PartialEq, Eq, Structural)]
pub enum RelativePathError {
    /// A component that cannot be a transport path segment, or no component.
    Invalid,
    /// A component that leaves the access root.
    EscapesRoot,
}

/// The segments of the first `i` components, or the first refusal.
pub open spec fn segments_upto(parts: Seq<PathPart>, i: int) -> Result<
    Seq<Seq<char>>,
    RelativePathError,
>
    decreases i,
{
    if i <= 0 {
        Ok(Seq::empty())
    } else {
        match segments_upto(parts, i - 1) {
            Err(e) => Err(e),
            Ok(acc) => match parts[i - 1] {
                PathPart::Normal(s) => if s@.len() == 0 || s@.contains('/') || s@.contains('\\') {
                    Err(RelativePathError::Invalid)
                } else {
                    Ok(acc.push(s@))
                },
                PathPart::CurrentDir => Ok(acc),
                PathPart::Other => Err(RelativePathError::EscapesRoot),
            },
        }
    }
}

/// The `/`-joined transport path of the components below the root.
pub open spec fn transport_path(parts: Seq<PathPart>) -> Result<Seq<char>, RelativePathError> {
    match segments_upto(parts, parts.len() as int) {
        Err(e) => Err(e),
        Ok(segs) => if segs.len() == 0 {
            Err(RelativePathError::Invalid)
        } else {
            Ok(join(segs, seq!['/']))
        },
    }
}

pub fn relative_transport_path(parts: &Vec<PathPart>) -> (r: Result<String, RelativePathError>)
    ensures
        match r {
            Ok(s) => transport_path(parts@) == Ok::<Seq<char>, RelativePathError>(s@),
            Err(e) => transport_path(parts@) == Err::<Seq<char>, RelativePathError>(e),
        },
{
    let mut segs: Vec<Vec<char>> = Vec::new();
    let mut i: usize = 0;
    assert(texts(segs@) =~= Seq::<Seq<char>>::empty());
    while i < parts.len()
        invariant
            i <= parts@.len(),
            segments_upto(parts@, i as int) == Ok::<Seq<Seq<char>>, RelativePathError>(
                texts(segs@),
            ),
        decreases parts@.len() - i,
    {
        let ghost before = texts(segs@);
        match &parts[i] {
            PathPart::Normal(s) => {
                let c = chars_of(s.as_str());
                if c.len() == 0 || contains_char(&c, '/') || contains_char(&c, '\\') {
                    proof {
                        lemma_segments_stop(parts@, i as int + 1);
                    }
                    return Err(RelativePathError::Invalid);
                }
                segs.push(c);
                assert(texts(segs@) =~= before.push(s@));
            },
            PathPart::CurrentDir => {},
            PathPart::Other => {
                proof {
                    lemma_segments_stop(parts@, i as int + 1);
                }
                return Err(RelativePathError::EscapesRoot);
            },
        }
        i = i + 1;
    }
    if segs.len() == 0 {
        return Err(RelativePathError::Invalid);
    }
    let sep = vec!['/'];
    let j = join_chars(&segs, &sep);
    assert(sep@ =~= seq!['/']);
    Ok(string_of(&j))
}

/// Once a component is refused, the refusal stands.
proof fn lemma_segments_stop(parts: Seq<PathPart>, i: int)
    requires
        0 < i <= parts.len(),
        segments_upto(parts, i) is Err,
    ensures
        segments_upto(parts, parts.len() as int) == segments_upto(parts, i),
    decreases parts.len() - i,
{
    if i < parts.len() {
        lemma_segments_stop(parts, i + 1);
    }
}

// ---------------------------------------------------------------------------
// Content fingerprint
// ---------------------------------------------------------------------------

pub const FINGERPRINT_VERSION: &'static str = "content-sample-sha256-v1";

pub const FINGERPRINT_SAMPLE_BYTES: u64 = 1048576;

/// The byte ranges of a file of `file_size` bytes that its fingerprint
/// reads, each as offset and length: the first sample, and the last sample
/// when the file is longer than one sample.
pub fn fingerprint_sample_ranges(file_size: u64) -> (r: ((u64, u64), Option<(u64, u64)>))
    ensures
        r.0 == (0u64, if file_size < FINGERPRINT_SAMPLE_BYTES {
            file_size
        } else {
            FINGERPRINT_SAMPLE_BYTES
        }),
        r.1 == if file_size > FINGERPRINT_SAMPLE_BYTES {
            Some(((file_size - FINGERPRINT_SAMPLE_BYTES) as u64, FINGERPRINT_SAMPLE_BYTES))
        } else {
            None
        },
{
    let head_len = if file_size < FINGERPRINT_SAMPLE_BYTES {
        file_size
    } else {
        FINGERPRINT_SAMPLE_BYTES
    };
    let tail = if file_size > FINGERPRINT_SAMPLE_BYTES {
        Some((file_size - FINGERPRINT_SAMPLE_BYTES, FINGERPRINT_SAMPLE_BYTES))
    } else {
        None
    };
    ((0, head_len), tail)
}

/// `k` little-endian bytes of `n`.
pub open spec fn le_bytes(n: nat, k: nat) -> Seq<u8>
    decreases k,
{
    if k == 0 {
        Seq::empty()
    } else {
        seq![(n % 256) as u8] + le_bytes(n / 256, (k - 1) as nat)
    }
}

/// What the fingerprint hashes: the version text, the file size, and the
/// first sample (offset 0), then, for files longer than one sample, the
/// last sample (at `size - sample`), each sample preceded by its offset and
/// length, all numbers as 8 little-endian bytes.
pub open spec fn fingerprint_message(size: nat, head: Seq<u8>, tail: Seq<u8>) -> Seq<u8> {
    vstd::utf8::encode_utf8(FINGERPRINT_VERSION@) + le_bytes(size, 8) + le_bytes(0, 8) + le_bytes(
        head.len(),
        8,
    ) + head + if size > FINGERPRINT_SAMPLE_BYTES {
        le_bytes((size - FINGERPRINT_SAMPLE_BYTES) as nat, 8) + le_bytes(tail.len(), 8) + tail
    } else {
        Seq::empty()
    }
}

/// `content-sample-sha256-v1:` and the hex SHA-256 of the message.
pub open spec fn fingerprint_text(size: nat, head: Seq<u8>, tail: Seq<u8>) -> Seq<char> {
    FINGERPRINT_VERSION@ + seq![':'] + hex_bytes(sha256_digest(fingerprint_message(size, head, tail)))
}

fn push_bytes(out: &mut Vec<u8>, more: &[u8])
    ensures
        final(out)@ == old(out)@ + more@,
{
    let mut i: usize = 0;
    while i < more.len()
        invariant
            i <= more@.len(),
            out@ == old(out)@ + more@.take(i as int),
        decreases more@.len() - i,
    {
        out.push(more[i]);
        i = i + 1;
        assert(out@ =~= old(out)@ + more@.take(i as int));
    }
    assert(more@.take(more@.len() as int) =~= more@);
}

fn push_le(out: &mut Vec<u8>, n: u64)
    ensures
        final(out)@ == old(out)@ + le_bytes(n as nat, 8),
{
    let mut v: u64 = n;
    let mut k: usize = 0;
    while k < 8
        invariant
            k <= 8,
            out@ + le_bytes(v as nat, (8 - k) as nat) == old(out)@ + le_bytes(n as nat, 8),
        decreases 8 - k,
    {
        let ghost before = out@;
        let b: u8 = (v % 256) as u8;
        out.push(b);
        proof {
            assert(le_bytes(v as nat, (8 - k) as nat) == seq![(v % 256) as u8] + le_bytes(
                (v / 256) as nat,
                (8 - k - 1) as nat,
            ));
            assert(out@ + le_bytes((v / 256) as nat, (8 - k - 1) as nat) =~= before + le_bytes(
                v as nat,
                (8 - k) as nat,
            ));
        }
        v = v / 256;
        k = k + 1;
    }
    assert(out@ =~= out@ + le_bytes(v as nat, 0));
}

/// The content fingerprint of a file of `file_size` bytes, from its first
/// sample and, when it is longer than one sample, its last sample.
pub fn clip_fingerprint(file_size: u64, head: &[u8], tail: &[u8]) -> (r: String)
    ensures
        r@ == fingerprint_text(file_size as nat, head@, tail@),
{
    let mut msg: Vec<u8> = Vec::new();
    push_bytes(&mut msg, FINGERPRINT_VERSION.as_bytes());
    push_le(&mut msg, file_size);
    push_le(&mut msg, 0);
    push_le(&mut msg, head.len() as u64);
    push_bytes(&mut msg, head);
    let ghost first = msg@;
    if file_size > FINGERPRINT_SAMPLE_BYTES {
        push_le(&mut msg, file_size - FINGERPRINT_SAMPLE_BYTES);
        push_le(&mut msg, tail.len() as u64);
        push_bytes(&mut msg, tail);
    }
    assert(msg@ =~= fingerprint_message(file_size as nat, head@, tail@));
    let digest = sha256(&msg);
    let hex = hex_of(&digest);
    let mut out = chars_of(FINGERPRINT_VERSION);
    out.push(':');
    append(&mut out, &hex);
    assert(out@ =~= fingerprint_text(file_size as nat, head@, tail@));
    string_of(&out)
}

// ---------------------------------------------------------------------------
// Timestamp evidence
// ---------------------------------------------------------------------------

/// When a clip was created, as far as the file system shows it.
#[derive(Debug, Clone, PartialEq, Eq)]
pub struct ClipTimestampEvidence {
    pub clip_created_at: Option<String>,
    pub clip_created_at_source: String,
    pub timestamp_evidence_json: String,
}

pub const TIMESTAMP_NOTE: &'static str =
    "filesystem timestamps are fallback evidence until MediaProbe writes embedded metadata";

/// The creation time chosen from the file system: the created time, else
/// the modified time, else none.
pub open spec fn chosen_timestamp(created: Option<Seq<char>>, modified: Option<Seq<char>>) -> (
    Seq<char>,
    Option<Seq<char>>,
) {
    match created {
        Some(c) => ("filesystem_created"@, Some(c)),
        None => match modified {
            Some(m) => ("filesystem_modified"@, Some(m)),
            None => ("unknown"@, None),
        },
    }
}

pub open spec fn timestamp_members(created: Option<Seq<char>>, modified: Option<Seq<char>>) -> Seq<
    (Seq<char>, Seq<char>),
> {
    let chosen = chosen_timestamp(created, modified);
    seq![
        ("schema_version"@, seq!['1']),
        ("chosen_source"@, json_string(chosen.0)),
        ("chosen_at"@, json_opt_string(chosen.1)),
        ("filesystem_created_at"@, json_opt_string(created)),
        ("filesystem_modified_at"@, json_opt_string(modified)),
        ("note"@, json_string(TIMESTAMP_NOTE@)),
    ]
}

/// The timestamp evidence of a file from its created and modified times.
pub fn timestamp_evidence(created: Option<String>, modified: Option<String>) -> (r:
    ClipTimestampEvidence)
    ensures
        r.clip_created_at_source@ == chosen_timestamp(opt_view(&created), opt_view(&modified)).0,
        opt_view(&r.clip_created_at) == chosen_timestamp(
            opt_view(&created),
            opt_view(&modified),
        ).1,
        r.timestamp_evidence_json@ == json_object(
            timestamp_members(opt_view(&created), opt_view(&modified)),
        ),
{
    let (source, at): (String, Option<String>) = match &created {
        Some(c) => ("filesystem_created".to_owned(), Some(c.clone())),
        None => match &modified {
            Some(m) => ("filesystem_modified".to_owned(), Some(m.clone())),
            None => ("unknown".to_owned(), None),
        },
    };
    let mut m: Vec<Vec<char>> = Vec::new();
    let one = vec!['1'];
    assert(one@ =~= seq!['1']);
    m.push(json_member_of("schema_version", &one));
    let v = json_str_text(source.as_str());
    m.push(json_member_of("chosen_source", &v));
    let v = json_opt_text(&at);
    m.push(json_member_of("chosen_at", &v));
    let v = json_opt_text(&created);
    m.push(json_member_of("filesystem_created_at", &v));
    let v = json_opt_text(&modified);
    m.push(json_member_of("filesystem_modified_at", &v));
    let v = json_str_text(TIMESTAMP_NOTE);
    m.push(json_member_of("note", &v));
    proof {
        let members = timestamp_members(opt_view(&created), opt_view(&modified));
        assert(texts(m@) =~= members_text(members));
        lemma_json_object(members, texts(m@));
    }
    let json = json_object_of(&m);
    ClipTimestampEvidence {
        clip_created_at: at,
        clip_created_at_source: source,
        timestamp_evidence_json: string_of(&json),
    }
}

// ---------------------------------------------------------------------------
// Requests, reports and records
// ---------------------------------------------------------------------------

/// A scan of the source at an operator access root.
#[derive(Debug, Clone, PartialEq, Eq)]
pub struct ScanRequest {
    pub source_identity: String,
    pub operator_access_root: String,
    pub seen_at: String,
}

impl ScanRequest {
    pub fn new(source_identity: &str, operator_access_root: &str, seen_at: &str) -> (r: Self)
        ensures
            r.source_identity@ == source_identity@,
            r.operator_access_root@ == operator_access_root@,
            r.seen_at@ == seen_at@,
    {
        ScanRequest {
            source_identity: source_identity.to_owned(),
            operator_access_root: operator_access_root.to_owned(),
            seen_at: seen_at.to_owned(),
        }
    }

    /// The request's source identity, trimmed; `None` when it is blank
    /// (the request is refused before anything is read).
    pub fn checked_source_identity(&self) -> (r: Option<String>)
        ensures
            r is None <==> trim(self.source_identity@).len() == 0,
            r matches Some(s) ==> s@ == trim(self.source_identity@),
    {
        let t = crate::text::trim_str(self.source_identity.as_str());
        if t.len() == 0 {
            None
        } else {
            Some(string_of(&t))
        }
    }
}

#[derive(Debug, Clone, PartialEq, Eq)]
pub struct ScanReport {
    pub source_identity: String,
    pub files_seen: usize,
    pub media_files_seen: usize,
    pub clips_inserted: usize,
    pub clips_updated: usize,
    pub skipped_non_media: usize,
}

impl ScanReport {
    /// Every file seen is a media file or a skipped one, and the clip row of
    /// every media file was inserted or updated.
    pub open spec fn counts_agree(self) -> bool {
        &&& self.files_seen == self.media_files_seen + self.skipped_non_media
        &&& self.media_files_seen == self.clips_inserted + self.clips_updated
    }

    /// A report with nothing seen yet.
    pub fn new(source_identity: &str) -> (r: Self)
        ensures
            r.counts_agree(),
            r.source_identity@ == source_identity@,
            r.files_seen == 0,
            r.media_files_seen == 0,
            r.clips_inserted == 0,
            r.clips_updated == 0,
            r.skipped_non_media == 0,
    {
        ScanReport {
            source_identity: source_identity.to_owned(),
            files_seen: 0,
            media_files_seen: 0,
            clips_inserted: 0,
            clips_updated: 0,
            skipped_non_media: 0,
        }
    }

    /// Counts one regular file: a non-media file when `upsert` is `None`,
    /// else a media file whose clip row was inserted or updated.
    pub fn record_file(&mut self, upsert: Option<UpsertKind>)
        requires
            old(self).files_seen < usize::MAX,
            old(self).media_files_seen < usize::MAX,
            old(self).clips_inserted < usize::MAX,
            old(self).clips_updated < usize::MAX,
            old(self).skipped_non_media < usize::MAX,
        ensures
            old(self).counts_agree() ==> final(self).counts_agree(),
            final(self).source_identity == old(self).source_identity,
            final(self).files_seen == old(self).files_seen + 1,
            final(self).skipped_non_media == old(self).skipped_non_media + (if upsert is None {
                1int
            } else {
                0int
            }),
            final(self).media_files_seen == old(self).media_files_seen + (if upsert is Some {
                1int
            } else {
                0int
            }),
            final(self).clips_inserted == old(self).clips_inserted + (if upsert == Some(
                UpsertKind::Inserted,
            ) {
                1int
            } else {
                0int
            }),
            final(self).clips_updated == old(self).clips_updated + (if upsert == Some(
                UpsertKind::Updated,
            ) {
                1int
            } else {
                0int
            }),
    {
        self.files_seen = self.files_seen + 1;
        match upsert {
            None => {
                self.skipped_non_media = self.skipped_non_media + 1;
            },
            Some(UpsertKind::Inserted) => {
                self.media_files_seen = self.media_files_seen + 1;
                self.clips_inserted = self.clips_inserted + 1;
            },
            Some(UpsertKind::Updated) => {
                self.media_files_seen = self.media_files_seen + 1;
                self.clips_updated = self.clips_updated + 1;
            },
        }
    }
}

/// The discovery record of one media file.
pub fn clip_record(
    source_identity: &str,
    clip_fingerprint: String,
    relative_path: String,
    original_name: String,
    extension: Option<String>,
    poster: Option<PosterCandidate>,
    file_size: u64,
    timestamp: ClipTimestampEvidence,
    seen_at: &str,
) -> (r: ClipDiscoveryRecord)
    ensures
        r.source_identity@ == source_identity@,
        r.clip_fingerprint == clip_fingerprint,
        r.relative_path == relative_path,
        r.original_name == original_name,
        r.extension == extension,
        r.poster_relative_path == (match poster {
            Some(p) => Some(p.relative_path),
            None => None::<String>,
        }),
        r.poster_source == (match poster {
            Some(p) => Some(p.source),
            None => None::<String>,
        }),
        r.file_size_bytes == (if file_size <= i64::MAX {
            Some(file_size as i64)
        } else {
            None
        }),
        r.clip_created_at == timestamp.clip_created_at,
        r.clip_created_at_source == timestamp.clip_created_at_source,
        r.clip_created_at_offset is None,
        r.timestamp_evidence_json == timestamp.timestamp_evidence_json,
        r.seen_at@ == seen_at@,
{
    let (poster_relative_path, poster_source) = match poster {
        Some(p) => (Some(p.relative_path), Some(p.source)),
        None => (None, None),
    };
    ClipDiscoveryRecord {
        source_identity: source_identity.to_owned(),
        clip_fingerprint,
        relative_path,
        original_name,
        extension,
        poster_relative_path,
        poster_source,
        file_size_bytes: if file_size <= 9223372036854775807u64 {
            Some(file_size as i64)
        } else {
            None
        },
        clip_created_at: timestamp.clip_created_at,
        clip_created_at_source: timestamp.clip_created_at_source,
        clip_created_at_offset: None,
        timestamp_evidence_json: timestamp.timestamp_evidence_json,
        seen_at: seen_at.to_owned(),
    }
}

proof fn lemma_concat_avoids(a: Seq<char>, b: Seq<char>, c: char)
    requires
        !a.contains(c),
        !b.contains(c),
    ensures
        !(a + b).contains(c),
{
    if (a + b).contains(c) {
        let k = choose|k: int| 0 <= k < (a + b).len() && (a + b)[k] == c;
        if k < a.len() {
            assert(a[k] == c);
        } else {
            assert(b[k - a.len()] == c);
        }
    }
}

proof fn lemma_join_avoids(parts: Seq<Seq<char>>, sep: Seq<char>, c: char)
    requires
        forall|i: int| 0 <= i < parts.len() ==> !(#[trigger] parts[i]).contains(c),
        !sep.contains(c),
    ensures
        !join(parts, sep).contains(c),
    decreases parts.len(),
{
    if parts.len() == 1 {
        assert(!parts[0].contains(c));
    } else if parts.len() > 1 {
        assert forall|i: int| 0 <= i < parts.drop_last().len() implies !(
        #[trigger] parts.drop_last()[i]).contains(c) by {
            assert(parts.drop_last()[i] == parts[i]);
        }
        lemma_join_avoids(parts.drop_last(), sep, c);
        assert(!parts[parts.len() - 1].contains(c));
        lemma_concat_avoids(join(parts.drop_last(), sep), sep, c);
        lemma_concat_avoids(join(parts.drop_last(), sep) + sep, parts.last(), c);
    }
}

proof fn lemma_segments_clean(parts: Seq<PathPart>, i: int)
    requires
        0 <= i <= parts.len(),
    ensures
        segments_upto(parts, i) matches Ok(segs) ==> forall|k: int|
            0 <= k < segs.len() ==> !(#[trigger] segs[k]).contains('\\') && !segs[k].contains('/')
                && segs[k].len() > 0,
    decreases i,
{
    if i > 0 {
        lemma_segments_clean(parts, i - 1);
        if let Ok(acc) = segments_upto(parts, i - 1) {
            if let Ok(segs) = segments_upto(parts, i) {
                assert forall|k: int| 0 <= k < segs.len() implies !(
                #[trigger] segs[k]).contains('\\') && !segs[k].contains('/') && segs[k].len()
                    > 0 by {
                    if k < acc.len() {
                        assert(segs[k] == acc[k]);
                    }
                }
            }
        }
    }
}

/// A relative transport path is OS-neutral: its segments are joined with
/// `/`, none is empty, and it holds no `\`.
pub proof fn lemma_transport_path_is_os_neutral(parts: Seq<PathPart>)
    ensures
        transport_path(parts) matches Ok(p) ==> !p.contains('\\') && p.len() > 0,
{
    lemma_segments_clean(parts, parts.len() as int);
    if let Ok(segs) = segments_upto(parts, parts.len() as int) {
        if segs.len() > 0 {
            assert(!seq!['/'].contains('\\')) by {
                if seq!['/'].contains('\\') {
                    let k = choose|k: int| 0 <= k < 1 && seq!['/'][k] == '\\';
                }
            }
            lemma_join_avoids(segs, seq!['/'], '\\');
            lemma_join_nonempty(segs, seq!['/']);
        }
    }
}

proof fn lemma_join_nonempty(parts: Seq<Seq<char>>, sep: Seq<char>)
    requires
        parts.len() > 0,
        parts[0].len() > 0,
    ensures
        join(parts, sep).len() > 0,
    decreases parts.len(),
{
    if parts.len() > 1 {
        lemma_join_nonempty(parts.drop_last(), sep);
    }
}

} // verus!
