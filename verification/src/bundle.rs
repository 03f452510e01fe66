//! What a bundle holds besides the probed metadata, and the commands that
//! produce and probe its audio.
use vstd::prelude::*;
use vstd::string::StringExecFns;

use crate::text::{decimal, decimal_text, hex, hex_text};
use crate::types::{
    view_opt, view_strings, ArtifactsView, BundleMetadata, BundleView, CompressDefaults, CompressionMetadata,
    CompressionView, MetadataArtifacts, OutputAudioMetadata, OutputAudioView, ProducerMetadata,
    ProducerView, SourceAudioMetadata, SourceAudioView, default_channels, default_sample_rate_hz,
};

verus! {

/// The identifier of a bundle made at `created_at_unix_ms`.
pub open spec fn bundle_id_text(created_at_unix_ms: u128) -> Seq<char> {
    "ab_"@ + hex(created_at_unix_ms as nat)
}

/// The identifier of a bundle made at `created_at_unix_ms` milliseconds
/// after the Unix epoch: `ab_` and the time in lower-case hexadecimal.
pub fn bundle_id(created_at_unix_ms: u128) -> (r: String)
    ensures
        r@ == bundle_id_text(created_at_unix_ms),
{
    let mut r = String::from_str("ab_");
    let h = hex_text(created_at_unix_ms);
    r.append(h.as_str());
    r
}

/// The encoding every bundle records: Opus in an `.ogg` file, 16 kHz,
/// mono, 24 kbit/s.
pub open spec fn default_compression() -> CompressionView {
    CompressionView {
        codec: "opus"@,
        container_extension: "ogg"@,
        sample_rate_hz: default_sample_rate_hz(),
        channels: default_channels(),
        bitrate: "24k"@,
    }
}

/// The side files every bundle has.
pub open spec fn default_artifacts() -> ArtifactsView {
    ArtifactsView {
        ffprobe_relpath: "source-ffprobe.json"@,
        mdls_relpath: "source-mdls.txt"@,
        xattrs_relpath: "source-xattrs.txt"@,
    }
}

/// The producer every bundle names.
pub open spec fn this_producer() -> ProducerView {
    ProducerView { name: "lifelog-audio-compression"@, version: "0.1.0"@ }
}

/// The `bundle.json` of a bundle made at `created_at_unix_ms`.
pub open spec fn bundle_of(
    source_audio: SourceAudioView,
    output_audio: OutputAudioView,
    created_at_unix_ms: u128,
) -> BundleView {
    BundleView {
        format: "audio-bundle"@,
        format_version: 1,
        bundle_id: bundle_id_text(created_at_unix_ms),
        created_at_unix_ms,
        producer: this_producer(),
        compression: default_compression(),
        source_audio,
        output_audio,
        metadata_artifacts: default_artifacts(),
    }
}

/// The compression a bundle records, taken from the defaults.
pub fn compression_metadata() -> (r: CompressionMetadata)
    ensures
        r@ == default_compression(),
{
    let defaults = CompressDefaults::default();
    CompressionMetadata {
        codec: String::from_str("opus"),
        container_extension: String::from_str(defaults.extension),
        sample_rate_hz: defaults.sample_rate_hz,
        channels: defaults.channels,
        bitrate: String::from_str(defaults.bitrate),
    }
}

/// The side files of a bundle.
pub fn metadata_artifacts() -> (r: MetadataArtifacts)
    ensures
        r@ == default_artifacts(),
{
    MetadataArtifacts {
        ffprobe_relpath: String::from_str("source-ffprobe.json"),
        mdls_relpath: String::from_str("source-mdls.txt"),
        xattrs_relpath: String::from_str("source-xattrs.txt"),
    }
}

/// The `bundle.json` of a bundle.
pub fn assemble_bundle(
    source_audio: SourceAudioMetadata,
    output_audio: OutputAudioMetadata,
    created_at_unix_ms: u128,
) -> (r: BundleMetadata)
    ensures
        r@ == bundle_of(source_audio@, output_audio@, created_at_unix_ms),
{
    BundleMetadata {
        format: String::from_str("audio-bundle"),
        format_version: 1,
        bundle_id: bundle_id(created_at_unix_ms),
        created_at_unix_ms,
        producer: ProducerMetadata {
            name: String::from_str("lifelog-audio-compression"),
            version: String::from_str("0.1.0"),
        },
        compression: compression_metadata(),
        source_audio,
        output_audio,
        metadata_artifacts: metadata_artifacts(),
    }
}

/// A program to run with its arguments; `require_success` says whether a
/// failing exit status is an error.
#[derive(Debug, Clone, PartialEq, Eq)]
pub struct CommandSpec {
    pub program: String,
    pub args: Vec<String>,
    pub require_success: bool,
}

pub struct CommandView {
    pub program: Seq<char>,
    pub args: Seq<Seq<char>>,
    pub require_success: bool,
}

impl View for CommandSpec {
    type V = CommandView;

    open spec fn view(&self) -> CommandView {
        CommandView {
            program: self.program@,
            args: view_strings(self.args@),
            require_success: self.require_success,
        }
    }
}

fn push_arg(args: &mut Vec<String>, a: &str)
    ensures
        view_strings(final(args)@) == view_strings(old(args)@).push(a@),
{
    args.push(String::from_str(a));
    assert(view_strings(final(args)@) =~= view_strings(old(args)@).push(a@));
}

/// ffprobe's full report of `input`, kept beside the bundle.
pub open spec fn full_probe_command(input: Seq<char>) -> CommandView {
    CommandView {
        program: "ffprobe"@,
        args: seq![
            "-v"@,
            "error"@,
            "-show_format"@,
            "-show_streams"@,
            "-show_chapters"@,
            "-show_programs"@,
            "-print_format"@,
            "json"@,
            input,
        ],
        require_success: true,
    }
}

/// The entries of ffprobe's report that the metadata reads.
pub open spec fn probe_entries() -> Seq<char> {
    "format=format_name,duration,size:format_tags=creation_time:stream=index,codec_type,codec_name,sample_rate,channels,channel_layout,bits_per_sample"@
}

/// ffprobe's JSON report of `input`, limited to what the metadata reads.
pub open spec fn json_probe_command(input: Seq<char>) -> CommandView {
    CommandView {
        program: "ffprobe"@,
        args: seq!["-v"@, "error"@, "-show_entries"@, probe_entries(), "-of"@, "json"@, input],
        require_success: true,
    }
}

/// Spotlight's metadata of `input`.
pub open spec fn mdls_command(input: Seq<char>) -> CommandView {
    CommandView { program: "mdls"@, args: seq![input], require_success: true }
}

/// The extended attributes of `input`; a failing status is not an error.
pub open spec fn xattr_command(input: Seq<char>) -> CommandView {
    CommandView { program: "xattr"@, args: seq!["-l"@, input], require_success: false }
}

/// ffmpeg turning `input` into mono 16 kHz Opus at 24 kbit/s, for speech.
pub open spec fn encode_command(input: Seq<char>, output: Seq<char>) -> CommandView {
    CommandView {
        program: "ffmpeg"@,
        args: seq![
            "-y"@,
            "-v"@,
            "error"@,
            "-i"@,
            input,
            "-vn"@,
            "-ac"@,
            decimal(default_channels() as nat),
            "-ar"@,
            decimal(default_sample_rate_hz() as nat),
            "-c:a"@,
            "libopus"@,
            "-b:a"@,
            "24k"@,
            "-application"@,
            "voip"@,
            output,
        ],
        require_success: true,
    }
}

pub fn full_probe(input: &str) -> (r: CommandSpec)
    ensures
        r@ == full_probe_command(input@),
{
    let mut args: Vec<String> = Vec::new();
    push_arg(&mut args, "-v");
    push_arg(&mut args, "error");
    push_arg(&mut args, "-show_format");
    push_arg(&mut args, "-show_streams");
    push_arg(&mut args, "-show_chapters");
    push_arg(&mut args, "-show_programs");
    push_arg(&mut args, "-print_format");
    push_arg(&mut args, "json");
    push_arg(&mut args, input);
    assert(view_strings(args@) =~= full_probe_command(input@).args);
    CommandSpec { program: String::from_str("ffprobe"), args, require_success: true }
}

pub fn json_probe(input: &str) -> (r: CommandSpec)
    ensures
        r@ == json_probe_command(input@),
{
    let mut args: Vec<String> = Vec::new();
    push_arg(&mut args, "-v");
    push_arg(&mut args, "error");
    push_arg(&mut args, "-show_entries");
    push_arg(
        &mut args,
        "format=format_name,duration,size:format_tags=creation_time:stream=index,codec_type,codec_name,sample_rate,channels,channel_layout,bits_per_sample",
    );
    push_arg(&mut args, "-of");
    push_arg(&mut args, "json");
    push_arg(&mut args, input);
    assert(view_strings(args@) =~= json_probe_command(input@).args);
    CommandSpec { program: String::from_str("ffprobe"), args, require_success: true }
}

pub fn mdls(input: &str) -> (r: CommandSpec)
    ensures
        r@ == mdls_command(input@),
{
    let mut args: Vec<String> = Vec::new();
    push_arg(&mut args, input);
    assert(view_strings(args@) =~= mdls_command(input@).args);
    CommandSpec { program: String::from_str("mdls"), args, require_success: true }
}

pub fn xattr(input: &str) -> (r: CommandSpec)
    ensures
        r@ == xattr_command(input@),
{
    let mut args: Vec<String> = Vec::new();
    push_arg(&mut args, "-l");
    push_arg(&mut args, input);
    assert(view_strings(args@) =~= xattr_command(input@).args);
    CommandSpec { program: String::from_str("xattr"), args, require_success: false }
}

pub fn encode(input: &str, output: &str) -> (r: CommandSpec)
    ensures
        r@ == encode_command(input@, output@),
{
    let defaults = CompressDefaults::default();
    let channels = decimal_text(defaults.channels as u64);
    let rate = decimal_text(defaults.sample_rate_hz as u64);
    let mut args: Vec<String> = Vec::new();
    push_arg(&mut args, "-y");
    push_arg(&mut args, "-v");
    push_arg(&mut args, "error");
    push_arg(&mut args, "-i");
    push_arg(&mut args, input);
    push_arg(&mut args, "-vn");
    push_arg(&mut args, "-ac");
    push_arg(&mut args, channels.as_str());
    push_arg(&mut args, "-ar");
    push_arg(&mut args, rate.as_str());
    push_arg(&mut args, "-c:a");
    push_arg(&mut args, defaults.codec);
    push_arg(&mut args, "-b:a");
    push_arg(&mut args, defaults.bitrate);
    push_arg(&mut args, "-application");
    push_arg(&mut args, "voip");
    push_arg(&mut args, output);
    assert(view_strings(args@) =~= encode_command(input@, output@).args);
    CommandSpec { program: String::from_str("ffmpeg"), args, require_success: true }
}

/// What running a command gave: the error that kept it from starting, or
/// whether it exited successfully, with its output and its error output
/// (the latter as text, invalid UTF-8 replaced).
#[derive(Debug, Clone, PartialEq, Eq)]
pub struct CommandReport {
    pub spawn_error: Option<String>,
    pub success: bool,
    pub stdout: Vec<u8>,
    pub stderr: String,
}

pub struct CommandReportView {
    pub spawn_error: Option<Seq<char>>,
    pub success: bool,
    pub stdout: Seq<u8>,
    pub stderr: Seq<char>,
}

impl View for CommandReport {
    type V = CommandReportView;

    open spec fn view(&self) -> CommandReportView {
        CommandReportView {
            spawn_error: view_opt(self.spawn_error),
            success: self.success,
            stdout: self.stdout@,
            stderr: self.stderr@,
        }
    }
}

/// The output of a command, or the error it ends the compression with.
pub open spec fn command_outcome(cmd: CommandView, report: CommandReportView) -> Result<Seq<u8>, Seq<char>> {
    match report.spawn_error {
        Some(e) => Err("failed to run `"@ + cmd.program + "`: "@ + e),
        None => if cmd.require_success && !report.success {
            Err("`"@ + cmd.program + "` failed: "@ + report.stderr)
        } else {
            Ok(report.stdout)
        },
    }
}

/// The output of a command, or the error it ends the compression with.
pub fn command_output(cmd: &CommandSpec, report: CommandReport) -> (r: Result<Vec<u8>, String>)
    ensures
        match r {
            Ok(out) => command_outcome(cmd@, report@) == Ok::<Seq<u8>, Seq<char>>(out@),
            Err(e) => command_outcome(cmd@, report@) == Err::<Seq<u8>, Seq<char>>(e@),
        },
{
    match report.spawn_error {
        Some(e) => {
            let mut m = String::from_str("failed to run `");
            m.append(cmd.program.as_str());
            m.append("`: ");
            m.append(e.as_str());
            Err(m)
        },
        None => {
            if cmd.require_success && !report.success {
                let mut m = String::from_str("`");
                m.append(cmd.program.as_str());
                m.append("` failed: ");
                m.append(report.stderr.as_str());
                Err(m)
            } else {
                Ok(report.stdout)
            }
        },
    }
}

} // verus!

verus! {

proof fn lemma_hex_digit_injective(a: int, b: int)
    requires
        0 <= a < 16,
        0 <= b < 16,
        crate::text::hex_digit_char(a) == crate::text::hex_digit_char(b),
    ensures
        a == b,
{
    let ca = crate::text::hex_digit_char(a);
    let cb = crate::text::hex_digit_char(b);
    assert(ca as int == (if a < 10 { a + 48 } else { a + 87 }));
    assert(cb as int == (if b < 10 { b + 48 } else { b + 87 }));
}

proof fn lemma_hex_len(n: nat)
    ensures
        hex(n).len() >= 1,
        n >= 16 ==> hex(n).len() >= 2,
    decreases n,
{
    if n >= 16 {
        lemma_hex_len(n / 16);
    }
}

/// Different numbers have different hexadecimal digits.
pub proof fn lemma_hex_injective(a: nat, b: nat)
    requires
        hex(a) == hex(b),
    ensures
        a == b,
    decreases a,
{
    lemma_hex_len(a);
    lemma_hex_len(b);
    if a < 16 && b < 16 {
        assert(hex(a) == seq![crate::text::hex_digit_char(a as int)]);
        assert(hex(b) == seq![crate::text::hex_digit_char(b as int)]);
        assert(hex(a)[0] == crate::text::hex_digit_char(a as int));
        assert(hex(b)[0] == crate::text::hex_digit_char(b as int));
        assert(hex(a)[0] == hex(b)[0]);
        lemma_hex_digit_injective(a as int, b as int);
    } else if a >= 16 && b >= 16 {
        assert(hex(a) == hex(a / 16).push(crate::text::hex_digit_char((a % 16) as int)));
        assert(hex(b) == hex(b / 16).push(crate::text::hex_digit_char((b % 16) as int)));
        assert(hex(a).last() == crate::text::hex_digit_char((a % 16) as int));
        assert(hex(b).last() == crate::text::hex_digit_char((b % 16) as int));
        assert(hex(a).last() == hex(b).last());
        lemma_hex_digit_injective((a % 16) as int, (b % 16) as int);
        assert(hex(a).drop_last() =~= hex(a / 16));
        assert(hex(b).drop_last() =~= hex(b / 16));
        lemma_hex_injective(a / 16, b / 16);
    } else {
        assert(hex(a).len() != hex(b).len());
    }
}

/// Bundles made at different milliseconds have different identifiers.
pub proof fn lemma_bundle_ids_differ(a: u128, b: u128)
    requires
        a != b,
    ensures
        bundle_id_text(a) != bundle_id_text(b),
{
    if bundle_id_text(a) == bundle_id_text(b) {
        let p = "ab_"@;
        assert(bundle_id_text(a).skip(p.len() as int) =~= hex(a as nat));
        assert(bundle_id_text(b).skip(p.len() as int) =~= hex(b as nat));
        lemma_hex_injective(a as nat, b as nat);
    }
}

} // verus!
