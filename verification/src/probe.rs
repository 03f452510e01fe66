//! Reading ffprobe's JSON report.
//!
//! The report is parsed by serde_json.  What a JSON pointer finds in it is
//! named `json_leaf_at`, a function of the report's bytes and the pointer;
//! the metadata of a file is computed from those findings.
use vstd::prelude::*;
use vstd::string::StringExecFns;

use crate::text::{
    chars_of, decimal, decimal_text, int_error_message, parse_unsigned, parse_unsigned_text,
    string_of,
};
use crate::types::{OutputAudioMetadata, OutputAudioView, SourceAudioMetadata, SourceAudioView, CompressDefaults};

verus! {

#[verifier::external_type_specification]
#[verifier::external_body]
pub struct ExJsonValue(serde_json::Value);

/// What a JSON pointer finds in a document, as far as the metadata reads
/// it: a number is kept as the `u64` it is, if it is one; an array by its
/// length.
pub enum JsonLeafView {
    Missing,
    Null,
    Bool(bool),
    Number(Option<u64>),
    Text(Seq<char>),
    Array(nat),
    Object,
}

pub enum JsonLeaf {
    Missing,
    Null,
    Bool(bool),
    Number(Option<u64>),
    Text(String),
    Array(usize),
    Object,
}

impl View for JsonLeaf {
    type V = JsonLeafView;

    open spec fn view(&self) -> JsonLeafView {
        match self {
            JsonLeaf::Missing => JsonLeafView::Missing,
            JsonLeaf::Null => JsonLeafView::Null,
            JsonLeaf::Bool(b) => JsonLeafView::Bool(*b),
            JsonLeaf::Number(n) => JsonLeafView::Number(*n),
            JsonLeaf::Text(s) => JsonLeafView::Text(s@),
            JsonLeaf::Array(n) => JsonLeafView::Array(*n as nat),
            JsonLeaf::Object => JsonLeafView::Object,
        }
    }
}

/// The message of serde_json's error for `text`, or `None` when `text` is
/// one JSON value.
pub uninterp spec fn json_syntax_error(text: Seq<u8>) -> Option<Seq<char>>;

/// What the JSON pointer `pointer` finds in the JSON value that `text`
/// holds.
pub uninterp spec fn json_leaf_at(text: Seq<u8>, pointer: Seq<char>) -> JsonLeafView;

/// A parsed ffprobe report.  Only `parse_probe` builds one, so the value is
/// always the one that serde_json reads from the kept bytes.
pub struct ProbeDocument {
    value: serde_json::Value,
    text: Vec<u8>,
}

impl View for ProbeDocument {
    type V = Seq<u8>;

    /// The bytes the document was read from.
    closed spec fn view(&self) -> Seq<u8> {
        self.text@
    }
}

/// Calls `serde_json::from_slice::<serde_json::Value>` on `text`.  Claimed:
/// it succeeds exactly when `json_syntax_error(text)` is `None`, and the
/// document then keeps `text`; otherwise the error's message is
/// `json_syntax_error(text)`.
#[verifier::external_body]
fn read_json(text: Vec<u8>) -> (r: Result<ProbeDocument, String>)
    ensures
        match r {
            Ok(doc) => json_syntax_error(text@) is None && doc@ == text@,
            Err(m) => json_syntax_error(text@) == Some(m@),
        },
{
    match serde_json::from_slice::<serde_json::Value>(&text) {
        Ok(value) => Ok(ProbeDocument { value, text }),
        Err(err) => Err(err.to_string()),
    }
}

/// Calls `serde_json::Value::pointer` on the document's value and reports
/// what it found: a string with its text, a number with `Number::as_u64`,
/// an array with its length.  Claimed: the report is
/// `json_leaf_at(bytes of the document, pointer)`.
#[verifier::external_body]
fn leaf_at(doc: &ProbeDocument, pointer: &str) -> (r: JsonLeaf)
    ensures
        r@ == json_leaf_at(doc@, pointer@),
{
    match doc.value.pointer(pointer) {
        None => JsonLeaf::Missing,
        Some(serde_json::Value::Null) => JsonLeaf::Null,
        Some(serde_json::Value::Bool(b)) => JsonLeaf::Bool(*b),
        Some(serde_json::Value::Number(n)) => JsonLeaf::Number(n.as_u64()),
        Some(serde_json::Value::String(s)) => JsonLeaf::Text(s.clone()),
        Some(serde_json::Value::Array(a)) => JsonLeaf::Array(a.len()),
        Some(serde_json::Value::Object(_)) => JsonLeaf::Object,
    }
}

/// The outcome of parsing an ffprobe report.
pub open spec fn probe_parse_outcome(text: Seq<u8>) -> Result<Seq<u8>, Seq<char>> {
    match json_syntax_error(text) {
        None => Ok(text),
        Some(m) => Err("failed to parse ffprobe json: "@ + m),
    }
}

/// Parses ffprobe's JSON report.
pub fn parse_probe(text: Vec<u8>) -> (r: Result<ProbeDocument, String>)
    ensures
        match r {
            Ok(doc) => probe_parse_outcome(text@) == Ok::<Seq<u8>, Seq<char>>(doc@),
            Err(e) => probe_parse_outcome(text@) == Err::<Seq<u8>, Seq<char>>(e@),
        },
{
    match read_json(text) {
        Ok(doc) => Ok(doc),
        Err(m) => {
            let mut e = String::from_str("failed to parse ffprobe json: ");
            e.append(m.as_str());
            Err(e)
        },
    }
}

/// The text of a JSON string (serde_json's `Value::as_str`).
pub open spec fn leaf_text(l: JsonLeafView) -> Option<Seq<char>> {
    match l {
        JsonLeafView::Text(t) => Some(t),
        _ => None,
    }
}

/// A number that is a `u64` (serde_json's `Value::as_u64`).
pub open spec fn leaf_u64(l: JsonLeafView) -> Option<u64> {
    match l {
        JsonLeafView::Number(n) => n,
        _ => None,
    }
}

/// The pointer to `field` of the stream at `index`.
pub open spec fn stream_field_pointer(index: nat, field: Seq<char>) -> Seq<char> {
    "/streams/"@ + decimal(index) + "/"@ + field
}

/// The number of streams, when the report has a stream array.
pub open spec fn stream_count(text: Seq<u8>) -> Option<nat> {
    match json_leaf_at(text, "/streams"@) {
        JsonLeafView::Array(n) => Some(n),
        _ => None,
    }
}

/// The stream at `index` is an audio stream.
pub open spec fn is_audio_stream(text: Seq<u8>, index: nat) -> bool {
    leaf_text(json_leaf_at(text, stream_field_pointer(index, "codec_type"@))) == Some("audio"@)
}

/// The first audio stream at `from` or after, below `count`.
pub open spec fn first_audio_from(text: Seq<u8>, from: nat, count: nat) -> Option<nat>
    decreases count - from,
{
    if from >= count {
        None
    } else if is_audio_stream(text, from) {
        Some(from)
    } else {
        first_audio_from(text, from + 1, count)
    }
}

/// The stream at `index` is among the streams of the report, its
/// `codec_type` is the string `audio`, and no stream before it has that
/// `codec_type`.
pub open spec fn is_first_audio_stream(text: Seq<u8>, index: nat) -> bool {
    &&& stream_count(text) matches Some(n) && index < n
    &&& json_leaf_at(text, stream_field_pointer(index, "codec_type"@)) == JsonLeafView::Text("audio"@)
    &&& forall|j: nat|
        j < index ==> json_leaf_at(text, #[trigger] stream_field_pointer(j, "codec_type"@))
            != JsonLeafView::Text("audio"@)
}

/// The index of the first audio stream of the report.
pub open spec fn audio_stream_index(text: Seq<u8>) -> Result<nat, Seq<char>> {
    match stream_count(text) {
        None => Err("ffprobe streams missing"@),
        Some(n) => match first_audio_from(text, 0, n) {
            Some(i) => Ok(i),
            None => Err("no audio stream found"@),
        },
    }
}

/// The duration in seconds, as the report writes it.
pub open spec fn duration_text(text: Seq<u8>) -> Result<Seq<char>, Seq<char>> {
    match leaf_text(json_leaf_at(text, "/format/duration"@)) {
        Some(d) => Ok(d),
        None => Err("format duration missing"@),
    }
}

/// The file size in bytes.
pub open spec fn size_bytes(text: Seq<u8>) -> Result<u64, Seq<char>> {
    match leaf_text(json_leaf_at(text, "/format/size"@)) {
        None => Err("format size missing"@),
        Some(s) => match parse_unsigned(s, u64::MAX as int) {
            Ok(v) => Ok(v as u64),
            Err(e) => Err("bad size: "@ + int_error_message(e)),
        },
    }
}

/// A string field, or `default` when the field is not a string.
pub open spec fn text_or(l: JsonLeafView, default: Seq<char>) -> Seq<char> {
    match leaf_text(l) {
        Some(t) => t,
        None => default,
    }
}

/// What comes before the first `c` of `s` (the first piece of
/// `s.split(c)`).
pub open spec fn before_first(s: Seq<char>, c: char) -> Seq<char>
    decreases s.len(),
{
    if s.len() == 0 {
        s
    } else if s[0] == c {
        seq![]
    } else {
        seq![s[0]] + before_first(s.drop_first(), c)
    }
}

/// A sample rate written as a string, 0 when it is missing or not a `u32`.
pub open spec fn rate_value(l: JsonLeafView) -> u32 {
    match parse_unsigned(text_or(l, "0"@), u32::MAX as int) {
        Ok(v) => v as u32,
        Err(_) => 0,
    }
}

/// A count written as a number, cut to 32 bits; 0 when it is not a `u64`.
pub open spec fn count_value(l: JsonLeafView) -> u32 {
    match leaf_u64(l) {
        Some(n) => n as u32,
        None => 0,
    }
}

/// A string field as an optional text.
pub open spec fn opt_text(l: JsonLeafView) -> Option<Seq<char>> {
    leaf_text(l)
}

/// The metadata of the source file: what the report gives of the stream at
/// `stream` and of the container, with `duration_ms` read from the
/// duration.
pub open spec fn source_audio_from(
    text: Seq<u8>,
    stream: nat,
    source_relpath: Seq<char>,
    duration_ms: u64,
) -> Result<SourceAudioView, Seq<char>> {
    match size_bytes(text) {
        Err(e) => Err(e),
        Ok(size) => Ok(
            SourceAudioView {
                source_relpath,
                file_size_bytes: size,
                container_format: before_first(
                    text_or(json_leaf_at(text, "/format/format_name"@), "unknown"@),
                    ',',
                ),
                audio_codec: text_or(
                    json_leaf_at(text, stream_field_pointer(stream, "codec_name"@)),
                    "unknown"@,
                ),
                duration_ms,
                sample_rate_hz: rate_value(
                    json_leaf_at(text, stream_field_pointer(stream, "sample_rate"@)),
                ),
                channels: count_value(json_leaf_at(text, stream_field_pointer(stream, "channels"@))),
                channel_layout: opt_text(
                    json_leaf_at(text, stream_field_pointer(stream, "channel_layout"@)),
                ),
                bits_per_sample: count_value(
                    json_leaf_at(text, stream_field_pointer(stream, "bits_per_sample"@)),
                ),
                creation_time: opt_text(json_leaf_at(text, "/format/tags/creation_time"@)),
            },
        ),
    }
}

/// The name of the compressed audio file in a bundle.
pub open spec fn audio_file_name() -> Seq<char> {
    "audio."@ + "ogg"@
}

/// The metadata of the compressed file.
pub open spec fn output_audio_from(text: Seq<u8>, stream: nat, duration_ms: u64) -> Result<
    OutputAudioView,
    Seq<char>,
> {
    match size_bytes(text) {
        Err(e) => Err(e),
        Ok(size) => Ok(
            OutputAudioView {
                audio_relpath: audio_file_name(),
                file_size_bytes: size,
                duration_ms,
                sample_rate_hz: rate_value(
                    json_leaf_at(text, stream_field_pointer(stream, "sample_rate"@)),
                ),
                channels: count_value(json_leaf_at(text, stream_field_pointer(stream, "channels"@))),
            },
        ),
    }
}

fn stream_pointer(index: usize, field: &str) -> (r: String)
    ensures
        r@ == stream_field_pointer(index as nat, field@),
{
    let mut p = String::from_str("/streams/");
    let d = decimal_text(index as u64);
    p.append(d.as_str());
    p.append("/");
    p.append(field);
    p
}

fn stream_leaf(doc: &ProbeDocument, index: usize, field: &str) -> (r: JsonLeaf)
    ensures
        r@ == json_leaf_at(doc@, stream_field_pointer(index as nat, field@)),
{
    let p = stream_pointer(index, field);
    leaf_at(doc, p.as_str())
}

/// The index of the first audio stream of the report: the first stream
/// whose `codec_type` is the string `audio`.
pub fn find_audio_stream(doc: &ProbeDocument) -> (r: Result<usize, String>)
    ensures
        match r {
            Ok(i) => audio_stream_index(doc@) == Ok::<nat, Seq<char>>(i as nat),
            Err(e) => audio_stream_index(doc@) == Err::<nat, Seq<char>>(e@),
        },
        r matches Ok(i) ==> {
            &&& json_leaf_at(doc@, stream_field_pointer(i as nat, "codec_type"@))
                == JsonLeafView::Text("audio"@)
            &&& forall|j: nat|
                j < i ==> json_leaf_at(doc@, #[trigger] stream_field_pointer(j, "codec_type"@))
                    != JsonLeafView::Text("audio"@)
        },
{
    let n = match leaf_at(doc, "/streams") {
        JsonLeaf::Array(n) => n,
        _ => {
            return Err(String::from_str("ffprobe streams missing"));
        },
    };
    let mut i: usize = 0;
    while i < n
        invariant
            i <= n,
            stream_count(doc@) == Some(n as nat),
            first_audio_from(doc@, 0, n as nat) == first_audio_from(doc@, i as nat, n as nat),
        decreases n - i,
    {
        let t = stream_leaf(doc, i, "codec_type");
        let ghost tv = t@;
        let is_audio = match t {
            JsonLeaf::Text(s) => {
                let cs = chars_of(s.as_str());
                let b = crate::text::chars_equal(&cs, &['a', 'u', 'd', 'i', 'o']);
                proof {
                    reveal_strlit("audio");
                    assert("audio"@ =~= seq!['a', 'u', 'd', 'i', 'o']);
                    assert(tv == JsonLeafView::Text(s@));
                    assert(b == (s@ == "audio"@));
                }
                b
            },
            _ => false,
        };
        assert(is_audio == is_audio_stream(doc@, i as nat));
        if is_audio {
            proof {
                lemma_audio_stream_is_first(doc@);
            }
            return Ok(i);
        }
        i = i + 1;
    }
    Err(String::from_str("no audio stream found"))
}

/// The duration as the report writes it.
pub fn probe_duration_text(doc: &ProbeDocument) -> (r: Result<String, String>)
    ensures
        match r {
            Ok(t) => duration_text(doc@) == Ok::<Seq<char>, Seq<char>>(t@),
            Err(e) => duration_text(doc@) == Err::<Seq<char>, Seq<char>>(e@),
        },
{
    match leaf_at(doc, "/format/duration") {
        JsonLeaf::Text(t) => Ok(t),
        _ => Err(String::from_str("format duration missing")),
    }
}

fn probe_size_bytes(doc: &ProbeDocument) -> (r: Result<u64, String>)
    ensures
        match r {
            Ok(v) => size_bytes(doc@) == Ok::<u64, Seq<char>>(v),
            Err(e) => size_bytes(doc@) == Err::<u64, Seq<char>>(e@),
        },
{
    match leaf_at(doc, "/format/size") {
        JsonLeaf::Text(t) => match parse_unsigned_text(t.as_str(), u64::MAX) {
            Ok(v) => Ok(v),
            Err(e) => {
                let mut m = String::from_str("bad size: ");
                let em = e.message();
                m.append(em.as_str());
                Err(m)
            },
        },
        _ => Err(String::from_str("format size missing")),
    }
}

fn leaf_text_or(l: JsonLeaf, default: &str) -> (r: String)
    ensures
        r@ == text_or(l@, default@),
{
    match l {
        JsonLeaf::Text(t) => t,
        _ => String::from_str(default),
    }
}

fn leaf_rate(l: JsonLeaf) -> (r: u32)
    ensures
        r == rate_value(l@),
{
    let t = leaf_text_or(l, "0");
    match parse_unsigned_text(t.as_str(), 4294967295u64) {
        Ok(v) => v as u32,
        Err(_) => 0,
    }
}

fn leaf_count(l: JsonLeaf) -> (r: u32)
    ensures
        r == count_value(l@),
{
    match l {
        JsonLeaf::Number(Some(n)) => #[verifier::truncate] (n as u32),
        _ => 0,
    }
}

fn leaf_opt_text(l: JsonLeaf) -> (r: Option<String>)
    ensures
        crate::types::view_opt(r) == opt_text(l@),
{
    match l {
        JsonLeaf::Text(t) => Some(t),
        _ => None,
    }
}

fn text_before_first(s: String, c: char) -> (r: String)
    ensures
        r@ == before_first(s@, c),
{
    let cs = chars_of(s.as_str());
    let mut out: Vec<char> = Vec::new();
    let mut i: usize = 0;
    assert(cs@.skip(0) =~= s@);
    assert(out@ + before_first(s@, c) =~= before_first(s@, c));
    while i < cs.len()
        invariant
            i <= cs.len(),
            cs@ == s@,
            before_first(s@, c) == out@ + before_first(cs@.skip(i as int), c),
        decreases cs.len() - i,
    {
        assert(cs@.skip(i as int).drop_first() =~= cs@.skip(i + 1));
        assert(cs@.skip(i as int)[0] == cs@[i as int]);
        if cs[i] == c {
            assert(out@ + Seq::<char>::empty() =~= out@);
            return string_of(&out);
        }
        let ghost before = out@;
        out.push(cs[i]);
        assert(before + (seq![cs@[i as int]] + before_first(cs@.skip(i + 1), c)) =~= out@
            + before_first(cs@.skip(i + 1), c));
        i = i + 1;
    }
    assert(cs@.skip(cs.len() as int) =~= Seq::<char>::empty());
    assert(out@ + Seq::<char>::empty() =~= out@);
    string_of(&out)
}

/// The metadata of the source file, from its report, the index of its
/// audio stream and the duration in milliseconds.
pub fn extract_source_audio_metadata(
    doc: &ProbeDocument,
    stream: usize,
    source_relpath: String,
    duration_ms: u64,
) -> (r: Result<SourceAudioMetadata, String>)
    ensures
        match r {
            Ok(m) => source_audio_from(doc@, stream as nat, source_relpath@, duration_ms) == Ok::<
                SourceAudioView,
                Seq<char>,
            >(m@),
            Err(e) => source_audio_from(doc@, stream as nat, source_relpath@, duration_ms) == Err::<
                SourceAudioView,
                Seq<char>,
            >(e@),
        },
{
    let file_size_bytes = match probe_size_bytes(doc) {
        Ok(v) => v,
        Err(e) => {
            return Err(e);
        },
    };
    let format_name = leaf_text_or(leaf_at(doc, "/format/format_name"), "unknown");
    let container_format = text_before_first(format_name, ',');
    let audio_codec = leaf_text_or(stream_leaf(doc, stream, "codec_name"), "unknown");
    let sample_rate_hz = leaf_rate(stream_leaf(doc, stream, "sample_rate"));
    let channels = leaf_count(stream_leaf(doc, stream, "channels"));
    let channel_layout = leaf_opt_text(stream_leaf(doc, stream, "channel_layout"));
    let bits_per_sample = leaf_count(stream_leaf(doc, stream, "bits_per_sample"));
    let creation_time = leaf_opt_text(leaf_at(doc, "/format/tags/creation_time"));
    Ok(
        SourceAudioMetadata {
            source_relpath,
            file_size_bytes,
            container_format,
            audio_codec,
            duration_ms,
            sample_rate_hz,
            channels,
            channel_layout,
            bits_per_sample,
            creation_time,
        },
    )
}

/// The metadata of the compressed file, from its report, the index of its
/// audio stream and the duration in milliseconds.
pub fn extract_output_audio_metadata(doc: &ProbeDocument, stream: usize, duration_ms: u64) -> (r:
    Result<OutputAudioMetadata, String>)
    ensures
        match r {
            Ok(m) => output_audio_from(doc@, stream as nat, duration_ms) == Ok::<
                OutputAudioView,
                Seq<char>,
            >(m@),
            Err(e) => output_audio_from(doc@, stream as nat, duration_ms) == Err::<
                OutputAudioView,
                Seq<char>,
            >(e@),
        },
{
    let file_size_bytes = match probe_size_bytes(doc) {
        Ok(v) => v,
        Err(e) => {
            return Err(e);
        },
    };
    let mut audio_relpath = String::from_str("audio.");
    let defaults = CompressDefaults::default();
    audio_relpath.append(defaults.extension);
    let sample_rate_hz = leaf_rate(stream_leaf(doc, stream, "sample_rate"));
    let channels = leaf_count(stream_leaf(doc, stream, "channels"));
    Ok(OutputAudioMetadata { audio_relpath, file_size_bytes, duration_ms, sample_rate_hz, channels })
}

} // verus!

verus! {

/// The search from `from` below `count` gives the first audio stream it
/// meets, and gives none only when no stream there is an audio stream.
proof fn lemma_first_audio_from(text: Seq<u8>, from: nat, count: nat)
    ensures
        first_audio_from(text, from, count) matches Some(i) ==> {
            &&& from <= i < count
            &&& is_audio_stream(text, i)
            &&& forall|j: nat| from <= j < i ==> !#[trigger] is_audio_stream(text, j)
        },
        first_audio_from(text, from, count) is None ==> forall|j: nat|
            from <= j < count ==> !#[trigger] is_audio_stream(text, j),
    decreases count - from,
{
    if from < count && !is_audio_stream(text, from) {
        lemma_first_audio_from(text, from + 1, count);
    }
}

/// The audio stream of a report is its first stream whose `codec_type` is
/// the string `audio`: that stream exists among the streams, and no stream
/// before it is one.  There is none only when the report has no stream
/// array, or no stream of the array is an audio stream.
pub proof fn lemma_audio_stream_is_first(text: Seq<u8>)
    ensures
        audio_stream_index(text) matches Ok(i) ==> {
            &&& stream_count(text) matches Some(n) && i < n
            &&& json_leaf_at(text, stream_field_pointer(i, "codec_type"@)) == JsonLeafView::Text(
                "audio"@,
            )
            &&& forall|j: nat|
                j < i ==> json_leaf_at(text, #[trigger] stream_field_pointer(j, "codec_type"@))
                    != JsonLeafView::Text("audio"@)
        },
        audio_stream_index(text) is Err <==> match stream_count(text) {
            None => true,
            Some(n) => forall|j: nat|
                j < n ==> json_leaf_at(text, #[trigger] stream_field_pointer(j, "codec_type"@))
                    != JsonLeafView::Text("audio"@),
        },
{
    match stream_count(text) {
        None => {},
        Some(n) => {
            lemma_first_audio_from(text, 0, n);
            match first_audio_from(text, 0, n) {
                Some(i) => {
                    assert(is_audio_stream(text, i));
                    assert forall|j: nat|
                        j < i implies json_leaf_at(
                        text,
                        #[trigger] stream_field_pointer(j, "codec_type"@),
                    ) != JsonLeafView::Text("audio"@) by {
                        assert(!is_audio_stream(text, j));
                    }
                    assert(!(forall|j: nat|
                        j < n ==> json_leaf_at(text, #[trigger] stream_field_pointer(j, "codec_type"@))
                            != JsonLeafView::Text("audio"@))) by {
                        assert(json_leaf_at(text, stream_field_pointer(i, "codec_type"@))
                            == JsonLeafView::Text("audio"@));
                    }
                },
                None => {
                    assert forall|j: nat|
                        j < n implies json_leaf_at(
                        text,
                        #[trigger] stream_field_pointer(j, "codec_type"@),
                    ) != JsonLeafView::Text("audio"@) by {
                        assert(!is_audio_stream(text, j));
                    }
                },
            }
        },
    }
}

/// A sample rate written as the decimal digits of any `u32` reads back as
/// that number.
pub proof fn lemma_rate_reads_decimal(v: u32)
    ensures
        rate_value(JsonLeafView::Text(decimal(v as nat))) == v,
{
    crate::text::lemma_parse_decimal(v as nat, u32::MAX as int);
}

/// A sample rate that is missing or not a string is 0.
pub proof fn lemma_rate_without_text(l: JsonLeafView)
    requires
        !(l is Text),
    ensures
        rate_value(l) == 0,
{
    reveal_strlit("0");
    crate::text::lemma_parse_decimal(0, u32::MAX as int);
    assert("0"@ =~= decimal(0));
}

} // verus!

verus! {

/// A count written as a number that fits in 32 bits reads as that number;
/// anything else that is not a `u64` number reads as 0.
pub proof fn lemma_count_reads_number(l: JsonLeafView)
    ensures
        l matches JsonLeafView::Number(Some(n)) ==> (n <= u32::MAX ==> count_value(l) == n),
        !(l matches JsonLeafView::Number(Some(_))) ==> count_value(l) == 0,
{
}

/// A string field reads as its text; a field that is missing or not a
/// string reads as the default, or as no text.
pub proof fn lemma_text_fields(l: JsonLeafView, default: Seq<char>)
    ensures
        l matches JsonLeafView::Text(t) ==> text_or(l, default) == t && opt_text(l) == Some(t),
        !(l is Text) ==> text_or(l, default) == default && opt_text(l) is None,
{
}

} // verus!

verus! {

/// A size written as the decimal digits of any `u64` reads back as that
/// number of bytes.
pub proof fn lemma_size_reads_decimal(text: Seq<u8>, v: u64)
    ensures
        json_leaf_at(text, "/format/size"@) == JsonLeafView::Text(decimal(v as nat)) ==> size_bytes(
            text,
        ) == Ok::<u64, Seq<char>>(v),
{
    crate::text::lemma_parse_decimal(v as nat, u64::MAX as int);
}

/// What comes before the first `c` of a text is everything up to it, or
/// the whole text when it holds no `c`.
pub proof fn lemma_before_first(a: Seq<char>, b: Seq<char>, c: char)
    requires
        !a.contains(c),
    ensures
        before_first(a, c) == a,
        before_first(a + seq![c] + b, c) == a,
    decreases a.len(),
{
    if a.len() == 0 {
        assert(a + seq![c] + b =~= seq![c] + b);
        assert((seq![c] + b)[0] == c);
    } else {
        assert(!a.drop_first().contains(c)) by {
            if a.drop_first().contains(c) {
                let k = choose|k: int| 0 <= k < a.drop_first().len() && a.drop_first()[k] == c;
                assert(a[k + 1] == c);
            }
        }
        lemma_before_first(a.drop_first(), b, c);
        assert(a[0] != c) by {
            if a[0] == c {
                assert(a.contains(c));
            }
        }
        assert((a + seq![c] + b).drop_first() =~= a.drop_first() + seq![c] + b);
        assert((a + seq![c] + b)[0] == a[0]);
        assert(seq![a[0]] + a.drop_first() =~= a);
    }
}

} // verus!
