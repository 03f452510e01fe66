//! Speech-first audio compression for lifelog archives.
//!
//! One source audio file becomes one audio bundle: a directory holding the
//! audio as mono 16 kHz Opus, `bundle.json` with the source's intrinsic
//! metadata, and the source's own metadata reports beside it.  A batch does
//! the same for every supported audio file under a directory, keeping its
//! structure.
//!
//! The library decides; its caller does the outside work.  A compression
//! (`compress::CompressJob`) or a batch (`batch::BatchJob`) hands out one
//! `io::IoRequest` at a time and takes the `io::IoReply` to it.

pub mod text;
pub mod path;
pub mod order;
pub mod types;
pub mod probe;
pub mod bundle;
pub mod io;
pub mod compress;
pub mod batch;

pub use batch::{compress_directory_to_dir, BatchJob, BatchProgress};
pub use compress::{compress, compress_to_dir, CompressJob, CompressProgress};
pub use path::{bundle_dir_for_input, is_supported_audio_file};
pub use types::{
    BatchCompressResult, BatchItemResult, BundleMetadata, CompressDefaults, CompressRequest,
    CompressResult, CompressionMetadata, MetadataArtifacts, OutputAudioMetadata, ProducerMetadata,
    SourceAudioMetadata,
};
