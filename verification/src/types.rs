//! The values that go into and come out of a compression, and the metadata
//! of an audio bundle, each with its mathematical view.
use vstd::prelude::*;

verus! {

/// One compression: which audio file, and which directory receives its
/// bundle.
#[derive(Debug, Clone, PartialEq, Eq)]
pub struct CompressRequest {
    pub input: String,
    pub output_dir: String,
}

pub struct CompressRequestView {
    pub input: Seq<char>,
    pub output_dir: Seq<char>,
}

impl View for CompressRequest {
    type V = CompressRequestView;

    open spec fn view(&self) -> CompressRequestView {
        CompressRequestView { input: self.input@, output_dir: self.output_dir@ }
    }
}

impl CompressRequest {
    pub fn new(input: &str, output_dir: &str) -> (r: Self)
        ensures
            r.input@ == input@,
            r.output_dir@ == output_dir@,
    {
        CompressRequest { input: input.to_owned(), output_dir: output_dir.to_owned() }
    }
}

/// The encoder settings that every bundle is made with.
#[derive(Debug, Clone, PartialEq, Eq)]
pub struct CompressDefaults {
    pub sample_rate_hz: u32,
    pub channels: u32,
    pub codec: &'static str,
    pub bitrate: &'static str,
    pub extension: &'static str,
}

pub open spec fn default_sample_rate_hz() -> u32 {
    16000
}

pub open spec fn default_channels() -> u32 {
    1
}

impl Default for CompressDefaults {
    /// Mono, 16 kHz, Opus through libopus at 24 kbit/s, in an `.ogg` file.
    fn default() -> (r: Self)
        ensures
            r.sample_rate_hz == default_sample_rate_hz(),
            r.channels == default_channels(),
            r.codec@ == "libopus"@,
            r.bitrate@ == "24k"@,
            r.extension@ == "ogg"@,
    {
        CompressDefaults {
            sample_rate_hz: 16000,
            channels: 1,
            codec: "libopus",
            bitrate: "24k",
            extension: "ogg",
        }
    }
}

/// Where a finished bundle and its audio file are.
#[derive(Debug, Clone, PartialEq, Eq)]
pub struct CompressResult {
    pub bundle_dir: String,
    pub audio_path: String,
}

pub struct CompressResultView {
    pub bundle_dir: Seq<char>,
    pub audio_path: Seq<char>,
}

impl View for CompressResult {
    type V = CompressResultView;

    open spec fn view(&self) -> CompressResultView {
        CompressResultView { bundle_dir: self.bundle_dir@, audio_path: self.audio_path@ }
    }
}

/// One compressed file of a batch.
#[derive(Debug, Clone, PartialEq, Eq)]
pub struct BatchItemResult {
    pub input: String,
    pub bundle_dir: String,
    pub audio_path: String,
}

pub struct BatchItemView {
    pub input: Seq<char>,
    pub bundle_dir: Seq<char>,
    pub audio_path: Seq<char>,
}

impl View for BatchItemResult {
    type V = BatchItemView;

    open spec fn view(&self) -> BatchItemView {
        BatchItemView { input: self.input@, bundle_dir: self.bundle_dir@, audio_path: self.audio_path@ }
    }
}

pub open spec fn view_items(items: Seq<BatchItemResult>) -> Seq<BatchItemView> {
    items.map_values(|i: BatchItemResult| i@)
}

/// The outcome of a batch.
#[derive(Debug, Clone, PartialEq, Eq)]
pub struct BatchCompressResult {
    pub output_root: String,
    pub item_count: usize,
    pub items: Vec<BatchItemResult>,
}

pub struct BatchResultView {
    pub output_root: Seq<char>,
    pub item_count: nat,
    pub items: Seq<BatchItemView>,
}

impl View for BatchCompressResult {
    type V = BatchResultView;

    open spec fn view(&self) -> BatchResultView {
        BatchResultView {
            output_root: self.output_root@,
            item_count: self.item_count as nat,
            items: view_items(self.items@),
        }
    }
}

/// The program that made a bundle.
#[derive(Debug, Clone, PartialEq, Eq)]
pub struct ProducerMetadata {
    pub name: String,
    pub version: String,
}

pub struct ProducerView {
    pub name: Seq<char>,
    pub version: Seq<char>,
}

impl View for ProducerMetadata {
    type V = ProducerView;

    open spec fn view(&self) -> ProducerView {
        ProducerView { name: self.name@, version: self.version@ }
    }
}

/// How the bundle's audio was encoded.
#[derive(Debug, Clone, PartialEq, Eq)]
pub struct CompressionMetadata {
    pub codec: String,
    pub container_extension: String,
    pub sample_rate_hz: u32,
    pub channels: u32,
    pub bitrate: String,
}

pub struct CompressionView {
    pub codec: Seq<char>,
    pub container_extension: Seq<char>,
    pub sample_rate_hz: u32,
    pub channels: u32,
    pub bitrate: Seq<char>,
}

impl View for CompressionMetadata {
    type V = CompressionView;

    open spec fn view(&self) -> CompressionView {
        CompressionView {
            codec: self.codec@,
            container_extension: self.container_extension@,
            sample_rate_hz: self.sample_rate_hz,
            channels: self.channels,
            bitrate: self.bitrate@,
        }
    }
}

/// The texts of a list of strings.
pub open spec fn view_strings(v: Seq<String>) -> Seq<Seq<char>> {
    v.map_values(|s: String| s@)
}

pub open spec fn view_opt(s: Option<String>) -> Option<Seq<char>> {
    match s {
        Some(t) => Some(t@),
        None => None,
    }
}

/// What ffprobe reports of the source audio file.
#[derive(Debug, Clone, PartialEq)]
pub struct SourceAudioMetadata {
    pub source_relpath: String,
    pub file_size_bytes: u64,
    pub container_format: String,
    pub audio_codec: String,
    pub duration_ms: u64,
    pub sample_rate_hz: u32,
    pub channels: u32,
    pub channel_layout: Option<String>,
    pub bits_per_sample: u32,
    pub creation_time: Option<String>,
}

pub struct SourceAudioView {
    pub source_relpath: Seq<char>,
    pub file_size_bytes: u64,
    pub container_format: Seq<char>,
    pub audio_codec: Seq<char>,
    pub duration_ms: u64,
    pub sample_rate_hz: u32,
    pub channels: u32,
    pub channel_layout: Option<Seq<char>>,
    pub bits_per_sample: u32,
    pub creation_time: Option<Seq<char>>,
}

impl View for SourceAudioMetadata {
    type V = SourceAudioView;

    open spec fn view(&self) -> SourceAudioView {
        SourceAudioView {
            source_relpath: self.source_relpath@,
            file_size_bytes: self.file_size_bytes,
            container_format: self.container_format@,
            audio_codec: self.audio_codec@,
            duration_ms: self.duration_ms,
            sample_rate_hz: self.sample_rate_hz,
            channels: self.channels,
            channel_layout: view_opt(self.channel_layout),
            bits_per_sample: self.bits_per_sample,
            creation_time: view_opt(self.creation_time),
        }
    }
}

/// What ffprobe reports of the compressed audio file.
#[derive(Debug, Clone, PartialEq)]
pub struct OutputAudioMetadata {
    pub audio_relpath: String,
    pub file_size_bytes: u64,
    pub duration_ms: u64,
    pub sample_rate_hz: u32,
    pub channels: u32,
}

pub struct OutputAudioView {
    pub audio_relpath: Seq<char>,
    pub file_size_bytes: u64,
    pub duration_ms: u64,
    pub sample_rate_hz: u32,
    pub channels: u32,
}

impl View for OutputAudioMetadata {
    type V = OutputAudioView;

    open spec fn view(&self) -> OutputAudioView {
        OutputAudioView {
            audio_relpath: self.audio_relpath@,
            file_size_bytes: self.file_size_bytes,
            duration_ms: self.duration_ms,
            sample_rate_hz: self.sample_rate_hz,
            channels: self.channels,
        }
    }
}

/// The side files that keep the source's own metadata, relative to the
/// bundle directory.
#[derive(Debug, Clone, PartialEq, Eq)]
pub struct MetadataArtifacts {
    pub ffprobe_relpath: String,
    pub mdls_relpath: String,
    pub xattrs_relpath: String,
}

pub struct ArtifactsView {
    pub ffprobe_relpath: Seq<char>,
    pub mdls_relpath: Seq<char>,
    pub xattrs_relpath: Seq<char>,
}

impl View for MetadataArtifacts {
    type V = ArtifactsView;

    open spec fn view(&self) -> ArtifactsView {
        ArtifactsView {
            ffprobe_relpath: self.ffprobe_relpath@,
            mdls_relpath: self.mdls_relpath@,
            xattrs_relpath: self.xattrs_relpath@,
        }
    }
}

/// The content of a bundle's `bundle.json`.
#[derive(Debug, Clone, PartialEq)]
pub struct BundleMetadata {
    pub format: String,
    pub format_version: u32,
    pub bundle_id: String,
    pub created_at_unix_ms: u128,
    pub producer: ProducerMetadata,
    pub compression: CompressionMetadata,
    pub source_audio: SourceAudioMetadata,
    pub output_audio: OutputAudioMetadata,
    pub metadata_artifacts: MetadataArtifacts,
}

pub struct BundleView {
    pub format: Seq<char>,
    pub format_version: u32,
    pub bundle_id: Seq<char>,
    pub created_at_unix_ms: u128,
    pub producer: ProducerView,
    pub compression: CompressionView,
    pub source_audio: SourceAudioView,
    pub output_audio: OutputAudioView,
    pub metadata_artifacts: ArtifactsView,
}

impl View for BundleMetadata {
    type V = BundleView;

    open spec fn view(&self) -> BundleView {
        BundleView {
            format: self.format@,
            format_version: self.format_version,
            bundle_id: self.bundle_id@,
            created_at_unix_ms: self.created_at_unix_ms,
            producer: self.producer@,
            compression: self.compression@,
            source_audio: self.source_audio@,
            output_audio: self.output_audio@,
            metadata_artifacts: self.metadata_artifacts@,
        }
    }
}

} // verus!
