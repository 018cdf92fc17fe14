//! ffprobe's standard output as the probe reads it: the streams and tags
//! found in the JSON text, as mathematical values, and the reading of that
//! text into `ProbeFacts`. The rules over the facts (which tag holds the
//! creation timestamp, which stream is the first video stream) are stated
//! here over those values too, and shown to agree with the rules over
//! `ProbeFacts`.
use vstd::prelude::*;
use crate::fmt::{dec, opt_view, push_dec, strings_view};
use crate::json::{
    json_array_len_at, json_error_text, json_i64_at, json_integer_at, json_keys_at, json_len_at,
    json_object_keys_at, json_parse_error, json_str_at, json_string_at, pointer_token,
    push_pointer_token,
};
use crate::media_probe::{
    camera_keys, camera_tag, creation_of, first_of_type, first_stream_timestamp, offset_of,
    opt_rate, stream_fps, stream_tags_path, tag_index, tag_timestamp, timestamp_in, ProbeFacts,
    ProbeStream, ProbeTag, TimestampView,
};
use crate::text::{append, append_str, chars_of, lower, string_of};

verus! {

/// A tag: its key, and its value when that is a string.
pub struct TagView {
    pub key: Seq<char>,
    pub value: Option<Seq<char>>,
}

/// What the probe reads of one stream.
pub struct StreamView {
    pub codec_type: Option<Seq<char>>,
    pub codec_name: Option<Seq<char>>,
    pub width: Option<i64>,
    pub height: Option<i64>,
    pub avg_frame_rate: Option<Seq<char>>,
    pub r_frame_rate: Option<Seq<char>>,
    pub tags: Option<Seq<TagView>>,
}

/// What the probe reads of ffprobe's output: the streams in order and the
/// format tags.
pub struct FactsView {
    pub streams: Seq<StreamView>,
    pub format_tags: Option<Seq<TagView>>,
}

pub open spec fn tag_view(t: ProbeTag) -> TagView {
    TagView { key: t.key@, value: opt_view(&t.value) }
}

pub open spec fn tags_view(tags: Seq<ProbeTag>) -> Seq<TagView> {
    tags.map_values(|t: ProbeTag| tag_view(t))
}

pub open spec fn opt_tags_view(tags: Option<Vec<ProbeTag>>) -> Option<Seq<TagView>> {
    match tags {
        Some(ts) => Some(tags_view(ts@)),
        None => None,
    }
}

pub open spec fn stream_view(s: ProbeStream) -> StreamView {
    StreamView {
        codec_type: opt_view(&s.codec_type),
        codec_name: opt_view(&s.codec_name),
        width: s.width,
        height: s.height,
        avg_frame_rate: opt_view(&s.avg_frame_rate),
        r_frame_rate: opt_view(&s.r_frame_rate),
        tags: opt_tags_view(s.tags),
    }
}

pub open spec fn streams_view(streams: Seq<ProbeStream>) -> Seq<StreamView> {
    streams.map_values(|s: ProbeStream| stream_view(s))
}

pub open spec fn facts_view(f: ProbeFacts) -> FactsView {
    FactsView { streams: streams_view(f.streams@), format_tags: opt_tags_view(f.format_tags) }
}

// ---------------------------------------------------------------------------
// The JSON text
// ---------------------------------------------------------------------------

/// The JSON pointer of the `k`-th stream.
pub open spec fn stream_pointer(k: nat) -> Seq<char> {
    "/streams/"@ + dec(k)
}

/// The tags of the object at `base`: its keys in order, each with the string
/// found under it.
pub open spec fn tags_at(json: Seq<char>, base: Seq<char>) -> Option<Seq<TagView>> {
    match json_keys_at(json, base) {
        Some(keys) => Some(
            Seq::new(
                keys.len(),
                |i: int|
                    TagView {
                        key: keys[i],
                        value: json_str_at(json, base + "/"@ + pointer_token(keys[i])),
                    },
            ),
        ),
        None => None,
    }
}

/// The `k`-th stream of the JSON text.
pub open spec fn stream_at(json: Seq<char>, k: nat) -> StreamView {
    let b = stream_pointer(k);
    StreamView {
        codec_type: json_str_at(json, b + "/codec_type"@),
        codec_name: json_str_at(json, b + "/codec_name"@),
        width: json_i64_at(json, b + "/width"@),
        height: json_i64_at(json, b + "/height"@),
        avg_frame_rate: json_str_at(json, b + "/avg_frame_rate"@),
        r_frame_rate: json_str_at(json, b + "/r_frame_rate"@),
        tags: tags_at(json, b + "/tags"@),
    }
}

/// The number of streams: the length of the `streams` array, else none.
pub open spec fn stream_count(json: Seq<char>) -> nat {
    match json_len_at(json, "/streams"@) {
        Some(n) => n as nat,
        None => 0,
    }
}

/// What the probe reads of ffprobe's standard output.
pub open spec fn stdout_facts(json: Seq<char>) -> FactsView {
    FactsView {
        streams: Seq::new(stream_count(json), |k: int| stream_at(json, k as nat)),
        format_tags: tags_at(json, "/format/tags"@),
    }
}

fn pointer_with(base: &Vec<char>, tail: &str) -> (r: Vec<char>)
    ensures
        r@ == base@ + tail@,
{
    let mut p: Vec<char> = Vec::new();
    append(&mut p, base);
    append_str(&mut p, tail);
    p
}

fn read_tags(json: &str, base: &Vec<char>) -> (r: Option<Vec<ProbeTag>>)
    ensures
        opt_tags_view(r) == tags_at(json@, base@),
{
    let b = string_of(base);
    match json_object_keys_at(json, b.as_str()) {
        None => None,
        Some(keys) => {
            let ghost ks = strings_view(keys@);
            let mut out: Vec<ProbeTag> = Vec::new();
            let mut i: usize = 0;
            while i < keys.len()
                invariant
                    i <= keys@.len(),
                    ks == strings_view(keys@),
                    out@.len() == i,
                    forall|j: int|
                        0 <= j < i ==> tag_view(#[trigger] out@[j]) == (TagView {
                            key: ks[j],
                            value: json_str_at(json@, base@ + "/"@ + pointer_token(ks[j])),
                        }),
                decreases keys@.len() - i,
            {
                let mut p = pointer_with(base, "/");
                push_pointer_token(&mut p, keys[i].as_str());
                let ps = string_of(&p);
                let value = json_string_at(json, ps.as_str());
                out.push(ProbeTag { key: keys[i].clone(), value });
                i = i + 1;
            }
            assert(tags_view(out@) =~= tags_at(json@, base@)->Some_0);
            Some(out)
        },
    }
}

fn read_stream(json: &str, k: usize) -> (r: ProbeStream)
    ensures
        stream_view(r) == stream_at(json@, k as nat),
{
    let mut b = chars_of("/streams/");
    push_dec(&mut b, k as u64);
    assert(b@ == stream_pointer(k as nat));
    let codec_type = json_string_at(json, string_of(&pointer_with(&b, "/codec_type")).as_str());
    let codec_name = json_string_at(json, string_of(&pointer_with(&b, "/codec_name")).as_str());
    let width = json_integer_at(json, string_of(&pointer_with(&b, "/width")).as_str());
    let height = json_integer_at(json, string_of(&pointer_with(&b, "/height")).as_str());
    let avg_frame_rate = json_string_at(
        json,
        string_of(&pointer_with(&b, "/avg_frame_rate")).as_str(),
    );
    let r_frame_rate = json_string_at(json, string_of(&pointer_with(&b, "/r_frame_rate")).as_str());
    let tags = read_tags(json, &pointer_with(&b, "/tags"));
    ProbeStream { codec_type, codec_name, width, height, avg_frame_rate, r_frame_rate, tags }
}

/// Reads ffprobe's standard output: the parser's error text when it is no
/// JSON, else the streams and the format tags found in it.
pub fn parse_probe_stdout(stdout: &str) -> (r: Result<ProbeFacts, String>)
    ensures
        match r {
            Ok(f) => json_parse_error(stdout@) is None && facts_view(f) == stdout_facts(stdout@),
            Err(e) => json_parse_error(stdout@) == Some(e@),
        },
{
    match json_error_text(stdout) {
        Some(e) => {
            return Err(e);
        },
        None => {},
    }
    let n: usize = match json_array_len_at(stdout, "/streams") {
        Some(n) => n,
        None => 0,
    };
    let mut streams: Vec<ProbeStream> = Vec::new();
    let mut k: usize = 0;
    while k < n
        invariant
            k <= n,
            n == stream_count(stdout@),
            streams@.len() == k,
            forall|j: int|
                0 <= j < k ==> stream_view(#[trigger] streams@[j]) == stream_at(stdout@, j as nat),
        decreases n - k,
    {
        streams.push(read_stream(stdout, k));
        k = k + 1;
    }
    let format_tags = read_tags(stdout, &chars_of("/format/tags"));
    let f = ProbeFacts { streams, format_tags };
    assert(streams_view(f.streams@) =~= stdout_facts(stdout@).streams);
    Ok(f)
}

// ---------------------------------------------------------------------------
// The rules over the values
// ---------------------------------------------------------------------------

/// Index of the first tag whose key equals `wanted` ignoring ASCII case and
/// whose value is a string.
pub open spec fn key_index(tags: Seq<TagView>, wanted: Seq<char>) -> Option<nat>
    decreases tags.len(),
{
    if tags.len() == 0 {
        None
    } else if lower(tags[0].key) == lower(wanted) && tags[0].value is Some {
        Some(0)
    } else {
        match key_index(tags.drop_first(), wanted) {
            Some(i) => Some(i + 1),
            None => None,
        }
    }
}

/// The tag of the first camera key that has a string value.
pub open spec fn camera_key_index(tags: Seq<TagView>, keys: Seq<Seq<char>>) -> Option<nat>
    decreases keys.len(),
{
    if keys.len() == 0 {
        None
    } else {
        match key_index(tags, keys[0]) {
            Some(i) => Some(i),
            None => camera_key_index(tags, keys.drop_first()),
        }
    }
}

pub open spec fn timestamp_of_tag(tag: TagView, source: Seq<char>, tag_path: Seq<char>) -> TimestampView {
    let value = match tag.value {
        Some(v) => v,
        None => Seq::empty(),
    };
    TimestampView { value, source, offset: offset_of(value), tag_path, tag_key: tag.key }
}

/// The creation timestamp among a set of tags: a camera date first, else
/// the container's `creation_time`.
pub open spec fn timestamp_among(tags: Seq<TagView>, tag_path: Seq<char>) -> Option<TimestampView> {
    match camera_key_index(tags, camera_keys()) {
        Some(i) => Some(timestamp_of_tag(tags[i as int], "embedded_camera"@, tag_path)),
        None => match key_index(tags, "creation_time"@) {
            Some(i) => Some(timestamp_of_tag(tags[i as int], "embedded_container"@, tag_path)),
            None => None,
        },
    }
}

/// The first stream, from index `from` on, whose tags hold a timestamp.
pub open spec fn first_stream_timestamp_of(streams: Seq<StreamView>, from: int) -> Option<
    TimestampView,
>
    decreases streams.len() - from,
{
    if from < 0 || from >= streams.len() {
        None
    } else {
        match match streams[from].tags {
            Some(ts) => timestamp_among(ts, stream_tags_path(from as nat)),
            None => None,
        } {
            Some(t) => Some(t),
            None => first_stream_timestamp_of(streams, from + 1),
        }
    }
}

/// The creation timestamp: from the format tags, else from the first
/// stream whose tags hold one.
pub open spec fn creation_timestamp_of(f: FactsView) -> Option<TimestampView> {
    match f.format_tags {
        Some(ts) => match timestamp_among(ts, "format.tags"@) {
            Some(t) => Some(t),
            None => first_stream_timestamp_of(f.streams, 0),
        },
        None => first_stream_timestamp_of(f.streams, 0),
    }
}

/// Index of the first stream of this codec type.
pub open spec fn first_stream_of_type(streams: Seq<StreamView>, codec_type: Seq<char>) -> Option<
    nat,
>
    decreases streams.len(),
{
    if streams.len() == 0 {
        None
    } else if streams[0].codec_type == Some(codec_type) {
        Some(0)
    } else {
        match first_stream_of_type(streams.drop_first(), codec_type) {
            Some(i) => Some(i + 1),
            None => None,
        }
    }
}

/// The first stream of this codec type.
pub open spec fn stream_of_type(f: FactsView, codec_type: Seq<char>) -> Option<StreamView> {
    match first_stream_of_type(f.streams, codec_type) {
        Some(i) => Some(f.streams[i as int]),
        None => None,
    }
}

/// The frame rate of a stream: its average rate, else its base rate.
pub open spec fn fps_of(s: StreamView) -> Option<(int, int)> {
    match opt_rate(s.avg_frame_rate) {
        Some(r) => Some(r),
        None => opt_rate(s.r_frame_rate),
    }
}

// ---------------------------------------------------------------------------
// Agreement with the rules over `ProbeFacts`
// ---------------------------------------------------------------------------

proof fn lemma_key_index(tags: Seq<ProbeTag>, wanted: Seq<char>)
    ensures
        tag_index(tags, wanted) == key_index(tags_view(tags), wanted),
        tag_index(tags, wanted) matches Some(i) ==> i < tags.len(),
    decreases tags.len(),
{
    if tags.len() > 0 {
        assert(tags_view(tags).drop_first() =~= tags_view(tags.drop_first()));
        assert(tags_view(tags)[0] == tag_view(tags[0]));
        lemma_key_index(tags.drop_first(), wanted);
    }
}

proof fn lemma_camera_key_index(tags: Seq<ProbeTag>, keys: Seq<Seq<char>>)
    ensures
        camera_tag(tags, keys) == camera_key_index(tags_view(tags), keys),
        camera_tag(tags, keys) matches Some(i) ==> i < tags.len(),
    decreases keys.len(),
{
    if keys.len() > 0 {
        lemma_key_index(tags, keys[0]);
        lemma_camera_key_index(tags, keys.drop_first());
    }
}

/// The timestamp among a set of tags is the same read over their values.
pub proof fn lemma_timestamp_among(tags: Seq<ProbeTag>, tag_path: Seq<char>)
    ensures
        timestamp_in(tags, tag_path) == timestamp_among(tags_view(tags), tag_path),
{
    lemma_camera_key_index(tags, camera_keys());
    lemma_key_index(tags, "creation_time"@);
    match camera_tag(tags, camera_keys()) {
        Some(i) => {
            assert(tags_view(tags)[i as int] == tag_view(tags[i as int]));
        },
        None => match tag_index(tags, "creation_time"@) {
            Some(i) => {
                assert(tags_view(tags)[i as int] == tag_view(tags[i as int]));
            },
            None => {},
        },
    }
}

proof fn lemma_first_stream_timestamp(streams: Seq<ProbeStream>, from: int)
    ensures
        first_stream_timestamp(streams, from) == first_stream_timestamp_of(
            streams_view(streams),
            from,
        ),
    decreases streams.len() - from,
{
    if 0 <= from < streams.len() {
        assert(streams_view(streams)[from] == stream_view(streams[from]));
        match streams[from].tags {
            Some(ts) => lemma_timestamp_among(ts@, stream_tags_path(from as nat)),
            None => {},
        }
        lemma_first_stream_timestamp(streams, from + 1);
    }
}

/// The creation timestamp of the facts is the one read over their values.
pub proof fn lemma_creation_timestamp(f: ProbeFacts)
    ensures
        creation_of(f) == creation_timestamp_of(facts_view(f)),
{
    lemma_first_stream_timestamp(f.streams@, 0);
    match f.format_tags {
        Some(ts) => lemma_timestamp_among(ts@, "format.tags"@),
        None => {},
    }
}

/// The first stream of a codec type is the same read over the values.
pub proof fn lemma_first_stream_of_type(streams: Seq<ProbeStream>, codec_type: Seq<char>)
    ensures
        first_of_type(streams, codec_type) == first_stream_of_type(
            streams_view(streams),
            codec_type,
        ),
        first_of_type(streams, codec_type) matches Some(i) ==> i < streams.len()
            && streams_view(streams)[i as int] == stream_view(streams[i as int]),
    decreases streams.len(),
{
    if streams.len() > 0 {
        assert(streams_view(streams).drop_first() =~= streams_view(streams.drop_first()));
        assert(streams_view(streams)[0] == stream_view(streams[0]));
        lemma_first_stream_of_type(streams.drop_first(), codec_type);
        match first_of_type(streams, codec_type) {
            Some(i) => {
                assert(streams_view(streams)[i as int] == stream_view(streams[i as int]));
            },
            None => {},
        }
    }
}

/// The frame rate of a stream is the one read over its values.
pub proof fn lemma_fps_of(s: ProbeStream)
    ensures
        stream_fps(s) == fps_of(stream_view(s)),
{
}

} // verus!
