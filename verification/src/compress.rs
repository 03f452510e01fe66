//! One compression, as a sequence of decisions between pieces of outside
//! work.
//!
//! The job checks the input, makes the bundle directory fresh, keeps the
//! source's own metadata beside the bundle (ffprobe's full report, mdls and
//! the extended attributes), probes the source, encodes it, probes the
//! result, and writes `bundle.json`.  The first failure ends it with its
//! message.
use vstd::prelude::*;
use vstd::string::StringExecFns;

use crate::bundle::{
    assemble_bundle, bundle_id_text, bundle_of, command_outcome, default_artifacts, default_compression, this_producer, command_output, encode, encode_command,
    full_probe, full_probe_command, json_probe, json_probe_command, mdls, mdls_command, xattr,
    xattr_command,
};
use crate::io::{
    reply_kind_for, reply_kind_of, BundleWriteError, BundleWriteErrorView, IoReply, IoReplyView,
    IoRequest, IoRequestView, ReplyKind,
};
use crate::path::{push_name, pushed};
use crate::text::{decimal, message, message3};
use crate::probe::{
    audio_file_name, audio_stream_index, duration_text, extract_output_audio_metadata,
    extract_source_audio_metadata, find_audio_stream, output_audio_from, parse_probe,
    probe_duration_text, probe_parse_outcome, source_audio_from, ProbeDocument,
    is_first_audio_stream, lemma_audio_stream_is_first, json_leaf_at, stream_field_pointer, text_or,
    rate_value, count_value, opt_text, size_bytes, before_first,
};
use crate::types::{
    CompressRequest, CompressRequestView, CompressResult, CompressResultView,
    OutputAudioMetadata, OutputAudioView, SourceAudioMetadata, SourceAudioView,
};

verus! {

/// Where a compression stands: which reply it waits for, with what it has
/// gathered so far.
pub enum CompressStage {
    InputExists,
    InputIsFile,
    OutputExists,
    RemovingOutput,
    CreatingOutput,
    FullProbe,
    WritingFullProbe,
    Mdls,
    WritingMdls,
    Xattr,
    WritingXattr,
    SourceProbe,
    SourceDuration { doc: ProbeDocument, stream: usize },
    Encoding { source: SourceAudioMetadata },
    OutputProbe { source: SourceAudioMetadata },
    OutputDuration { source: SourceAudioMetadata, doc: ProbeDocument, stream: usize },
    Clock { source: SourceAudioMetadata, output: OutputAudioMetadata },
    WritingBundle,
}

pub enum StageView {
    InputExists,
    InputIsFile,
    OutputExists,
    RemovingOutput,
    CreatingOutput,
    FullProbe,
    WritingFullProbe,
    Mdls,
    WritingMdls,
    Xattr,
    WritingXattr,
    SourceProbe,
    SourceDuration { doc: Seq<u8>, stream: nat },
    Encoding { source: SourceAudioView },
    OutputProbe { source: SourceAudioView },
    OutputDuration { source: SourceAudioView, doc: Seq<u8>, stream: nat },
    Clock { source: SourceAudioView, output: OutputAudioView },
    WritingBundle,
}

impl View for CompressStage {
    type V = StageView;

    open spec fn view(&self) -> StageView {
        match self {
            CompressStage::InputExists => StageView::InputExists,
            CompressStage::InputIsFile => StageView::InputIsFile,
            CompressStage::OutputExists => StageView::OutputExists,
            CompressStage::RemovingOutput => StageView::RemovingOutput,
            CompressStage::CreatingOutput => StageView::CreatingOutput,
            CompressStage::FullProbe => StageView::FullProbe,
            CompressStage::WritingFullProbe => StageView::WritingFullProbe,
            CompressStage::Mdls => StageView::Mdls,
            CompressStage::WritingMdls => StageView::WritingMdls,
            CompressStage::Xattr => StageView::Xattr,
            CompressStage::WritingXattr => StageView::WritingXattr,
            CompressStage::SourceProbe => StageView::SourceProbe,
            CompressStage::SourceDuration { doc, stream } => StageView::SourceDuration {
                doc: doc@,
                stream: *stream as nat,
            },
            CompressStage::Encoding { source } => StageView::Encoding { source: source@ },
            CompressStage::OutputProbe { source } => StageView::OutputProbe { source: source@ },
            CompressStage::OutputDuration { source, doc, stream } => StageView::OutputDuration {
                source: source@,
                doc: doc@,
                stream: *stream as nat,
            },
            CompressStage::Clock { source, output } => StageView::Clock {
                source: source@,
                output: output@,
            },
            CompressStage::WritingBundle => StageView::WritingBundle,
        }
    }
}

/// A compression under way.
pub struct CompressJob {
    pub request: CompressRequest,
    pub stage: CompressStage,
}

pub struct CompressJobView {
    pub request: CompressRequestView,
    pub stage: StageView,
}

impl View for CompressJob {
    type V = CompressJobView;

    open spec fn view(&self) -> CompressJobView {
        CompressJobView { request: self.request@, stage: self.stage@ }
    }
}

/// What a compression does next: more outside work, or it is over.
pub enum CompressProgress {
    Next(CompressJob, IoRequest),
    Done(Result<CompressResult, String>),
}

pub enum CompressProgressView {
    Next(CompressJobView, IoRequestView),
    Done(Result<CompressResultView, Seq<char>>),
}

impl View for CompressProgress {
    type V = CompressProgressView;

    open spec fn view(&self) -> CompressProgressView {
        match self {
            CompressProgress::Next(j, r) => CompressProgressView::Next(j@, r@),
            CompressProgress::Done(Ok(r)) => CompressProgressView::Done(Ok(r@)),
            CompressProgress::Done(Err(e)) => CompressProgressView::Done(Err(e@)),
        }
    }
}

/// The kind of reply a stage waits for.
pub open spec fn awaits(stage: StageView) -> ReplyKind {
    match stage {
        StageView::InputExists => ReplyKind::Answer,
        StageView::InputIsFile => ReplyKind::Answer,
        StageView::OutputExists => ReplyKind::Answer,
        StageView::RemovingOutput => ReplyKind::Completed,
        StageView::CreatingOutput => ReplyKind::Completed,
        StageView::FullProbe => ReplyKind::Ran,
        StageView::WritingFullProbe => ReplyKind::Completed,
        StageView::Mdls => ReplyKind::Ran,
        StageView::WritingMdls => ReplyKind::Completed,
        StageView::Xattr => ReplyKind::Ran,
        StageView::WritingXattr => ReplyKind::Completed,
        StageView::SourceProbe => ReplyKind::Ran,
        StageView::SourceDuration { .. } => ReplyKind::Duration,
        StageView::Encoding { .. } => ReplyKind::Ran,
        StageView::OutputProbe { .. } => ReplyKind::Ran,
        StageView::OutputDuration { .. } => ReplyKind::Duration,
        StageView::Clock { .. } => ReplyKind::Clock,
        StageView::WritingBundle => ReplyKind::BundleWritten,
    }
}

/// The path of the compressed audio file.
pub open spec fn audio_path(output_dir: Seq<char>) -> Seq<char> {
    pushed(output_dir, audio_file_name())
}

/// The path of `bundle.json`.
pub open spec fn bundle_json_path(output_dir: Seq<char>) -> Seq<char> {
    pushed(output_dir, "bundle.json"@)
}

pub open spec fn go(request: CompressRequestView, stage: StageView, io: IoRequestView) -> CompressProgressView {
    CompressProgressView::Next(CompressJobView { request, stage }, io)
}

pub open spec fn fail(message: Seq<char>) -> CompressProgressView {
    CompressProgressView::Done(Err(message))
}

/// After a probe ran: parse its report, find the audio stream
/// and its duration, and ask for the duration in milliseconds.
pub open spec fn after_probe(
    request: CompressRequestView,
    cmd_outcome: Result<Seq<u8>, Seq<char>>,
    next: spec_fn(Seq<u8>, nat) -> StageView,
) -> CompressProgressView {
    match cmd_outcome {
        Err(e) => fail(e),
        Ok(out) => match probe_parse_outcome(out) {
            Err(e) => fail(e),
            Ok(text) => match audio_stream_index(text) {
                Err(e) => fail(e),
                Ok(i) => match duration_text(text) {
                    Err(e) => fail(e),
                    Ok(t) => go(request, next(text, i), IoRequestView::ParseDuration(t)),
                },
            },
        },
    }
}

/// A finished piece of work that may have failed, with the text that
/// leads its message.
pub open spec fn after_completed(
    request: CompressRequestView,
    r: Result<(), Seq<char>>,
    lead: Seq<char>,
    stage: StageView,
    io: IoRequestView,
) -> CompressProgressView {
    match r {
        Err(m) => fail(lead + m),
        Ok(_) => go(request, stage, io),
    }
}

/// The next step of a compression, given the reply to its last request.
pub open spec fn compress_next(job: CompressJobView, reply: IoReplyView) -> CompressProgressView {
    let req = job.request;
    let input = req.input;
    let out = req.output_dir;
    match job.stage {
        StageView::InputExists => match reply {
            IoReplyView::Answer(true) => go(req, StageView::InputIsFile, IoRequestView::PathIsFile(input)),
            _ => fail("input does not exist: "@ + input),
        },
        StageView::InputIsFile => match reply {
            IoReplyView::Answer(true) => go(req, StageView::OutputExists, IoRequestView::PathExists(out)),
            _ => fail("input is not a file: "@ + input),
        },
        StageView::OutputExists => match reply {
            IoReplyView::Answer(true) => go(req, StageView::RemovingOutput, IoRequestView::RemoveDirAll(out)),
            _ => go(req, StageView::CreatingOutput, IoRequestView::CreateDirAll(out)),
        },
        StageView::RemovingOutput => match reply {
            IoReplyView::Completed(r) => after_completed(
                req,
                r,
                "failed to remove "@ + out + ": "@,
                StageView::CreatingOutput,
                IoRequestView::CreateDirAll(out),
            ),
            _ => fail(seq![]),
        },
        StageView::CreatingOutput => match reply {
            IoReplyView::Completed(r) => after_completed(
                req,
                r,
                "failed to create "@ + out + ": "@,
                StageView::FullProbe,
                IoRequestView::Run(full_probe_command(input)),
            ),
            _ => fail(seq![]),
        },
        StageView::FullProbe => match reply {
            IoReplyView::Ran(rep) => match command_outcome(full_probe_command(input), rep) {
                Err(e) => fail(e),
                Ok(o) => go(
                    req,
                    StageView::WritingFullProbe,
                    IoRequestView::WriteFile(pushed(out, "source-ffprobe.json"@), o),
                ),
            },
            _ => fail(seq![]),
        },
        StageView::WritingFullProbe => match reply {
            IoReplyView::Completed(r) => after_completed(
                req,
                r,
                "failed to write ffprobe metadata: "@,
                StageView::Mdls,
                IoRequestView::Run(mdls_command(input)),
            ),
            _ => fail(seq![]),
        },
        StageView::Mdls => match reply {
            IoReplyView::Ran(rep) => match command_outcome(mdls_command(input), rep) {
                Err(e) => fail(e),
                Ok(o) => go(
                    req,
                    StageView::WritingMdls,
                    IoRequestView::WriteFile(pushed(out, "source-mdls.txt"@), o),
                ),
            },
            _ => fail(seq![]),
        },
        StageView::WritingMdls => match reply {
            IoReplyView::Completed(r) => after_completed(
                req,
                r,
                "failed to write mdls metadata: "@,
                StageView::Xattr,
                IoRequestView::Run(xattr_command(input)),
            ),
            _ => fail(seq![]),
        },
        StageView::Xattr => match reply {
            IoReplyView::Ran(rep) => match command_outcome(xattr_command(input), rep) {
                Err(e) => fail(e),
                Ok(o) => go(
                    req,
                    StageView::WritingXattr,
                    IoRequestView::WriteFile(pushed(out, "source-xattrs.txt"@), o),
                ),
            },
            _ => fail(seq![]),
        },
        StageView::WritingXattr => match reply {
            IoReplyView::Completed(r) => after_completed(
                req,
                r,
                "failed to write xattr metadata: "@,
                StageView::SourceProbe,
                IoRequestView::Run(json_probe_command(input)),
            ),
            _ => fail(seq![]),
        },
        StageView::SourceProbe => match reply {
            IoReplyView::Ran(rep) => after_probe(
                req,
                command_outcome(json_probe_command(input), rep),
                |doc: Seq<u8>, stream: nat| StageView::SourceDuration { doc, stream },
            ),
            _ => fail(seq![]),
        },
        StageView::SourceDuration { doc, stream } => match reply {
            IoReplyView::Duration(Err(m)) => fail("bad duration: "@ + m),
            IoReplyView::Duration(Ok(ms)) => match source_audio_from(doc, stream, input, ms) {
                Err(e) => fail(e),
                Ok(source) => go(
                    req,
                    StageView::Encoding { source },
                    IoRequestView::Run(encode_command(input, audio_path(out))),
                ),
            },
            _ => fail(seq![]),
        },
        StageView::Encoding { source } => match reply {
            IoReplyView::Ran(rep) => match command_outcome(encode_command(input, audio_path(out)), rep) {
                Err(e) => fail(e),
                Ok(_) => go(
                    req,
                    StageView::OutputProbe { source },
                    IoRequestView::Run(json_probe_command(audio_path(out))),
                ),
            },
            _ => fail(seq![]),
        },
        StageView::OutputProbe { source } => match reply {
            IoReplyView::Ran(rep) => after_probe(
                req,
                command_outcome(json_probe_command(audio_path(out)), rep),
                |doc: Seq<u8>, stream: nat| StageView::OutputDuration { source, doc, stream },
            ),
            _ => fail(seq![]),
        },
        StageView::OutputDuration { source, doc, stream } => match reply {
            IoReplyView::Duration(Err(m)) => fail("bad duration: "@ + m),
            IoReplyView::Duration(Ok(ms)) => match output_audio_from(doc, stream, ms) {
                Err(e) => fail(e),
                Ok(output) => go(req, StageView::Clock { source, output }, IoRequestView::ReadClock),
            },
            _ => fail(seq![]),
        },
        StageView::Clock { source, output } => match reply {
            IoReplyView::Clock(Err(m)) => fail("system clock before unix epoch: "@ + m),
            IoReplyView::Clock(Ok(ms)) => go(
                req,
                StageView::WritingBundle,
                IoRequestView::WriteBundle(bundle_json_path(out), bundle_of(source, output, ms)),
            ),
            _ => fail(seq![]),
        },
        StageView::WritingBundle => match reply {
            IoReplyView::BundleWritten(Ok(_)) => CompressProgressView::Done(
                Ok(CompressResultView { bundle_dir: out, audio_path: audio_path(out) }),
            ),
            IoReplyView::BundleWritten(Err(BundleWriteErrorView::Create(m))) => fail(
                "failed to create "@ + bundle_json_path(out) + ": "@ + m,
            ),
            IoReplyView::BundleWritten(Err(BundleWriteErrorView::Serialize(m))) => fail(
                "failed to write bundle metadata: "@ + m,
            ),
            IoReplyView::BundleWritten(Err(BundleWriteErrorView::Finalize(m))) => fail(
                "failed to finalize bundle metadata: "@ + m,
            ),
            _ => fail(seq![]),
        },
    }
}

fn done_err(e: String) -> (r: CompressProgress)
    ensures
        r@ == fail(e@),
{
    CompressProgress::Done(Err(e))
}

impl CompressJob {
    /// Begins the compression that `request` asks for.
    pub fn start(request: CompressRequest) -> (r: (CompressJob, IoRequest))
        ensures
            r.0@ == (CompressJobView { request: request@, stage: StageView::InputExists }),
            r.1@ == IoRequestView::PathExists(request@.input),
            awaits(r.0@.stage) == reply_kind_for(r.1@),
    {
        let input = request.input.clone();
        (CompressJob { request, stage: CompressStage::InputExists }, IoRequest::PathExists(input))
    }

    /// The kind of reply the job waits for.
    pub fn awaited(&self) -> (k: ReplyKind)
        ensures
            k == awaits(self@.stage),
    {
        match &self.stage {
            CompressStage::InputExists => ReplyKind::Answer,
            CompressStage::InputIsFile => ReplyKind::Answer,
            CompressStage::OutputExists => ReplyKind::Answer,
            CompressStage::RemovingOutput => ReplyKind::Completed,
            CompressStage::CreatingOutput => ReplyKind::Completed,
            CompressStage::FullProbe => ReplyKind::Ran,
            CompressStage::WritingFullProbe => ReplyKind::Completed,
            CompressStage::Mdls => ReplyKind::Ran,
            CompressStage::WritingMdls => ReplyKind::Completed,
            CompressStage::Xattr => ReplyKind::Ran,
            CompressStage::WritingXattr => ReplyKind::Completed,
            CompressStage::SourceProbe => ReplyKind::Ran,
            CompressStage::SourceDuration { .. } => ReplyKind::Duration,
            CompressStage::Encoding { .. } => ReplyKind::Ran,
            CompressStage::OutputProbe { .. } => ReplyKind::Ran,
            CompressStage::OutputDuration { .. } => ReplyKind::Duration,
            CompressStage::Clock { .. } => ReplyKind::Clock,
            CompressStage::WritingBundle => ReplyKind::BundleWritten,
        }
    }

    /// Takes the reply to the last request and decides what comes next.
    pub fn step(self, reply: IoReply) -> (r: CompressProgress)
        requires
            reply_kind_of(reply@) == awaits(self@.stage),
        ensures
            r@ == compress_next(self@, reply@),
    {
        let CompressJob { request, stage } = self;
        match stage {
            CompressStage::InputExists => {
                if let IoReply::Answer(true) = reply {
                    let input = request.input.clone();
                    CompressProgress::Next(
                        CompressJob { request, stage: CompressStage::InputIsFile },
                        IoRequest::PathIsFile(input),
                    )
                } else {
                    done_err(message("input does not exist: ", request.input.as_str()))
                }
            },
            CompressStage::InputIsFile => {
                if let IoReply::Answer(true) = reply {
                    let out = request.output_dir.clone();
                    CompressProgress::Next(
                        CompressJob { request, stage: CompressStage::OutputExists },
                        IoRequest::PathExists(out),
                    )
                } else {
                    done_err(message("input is not a file: ", request.input.as_str()))
                }
            },
            CompressStage::OutputExists => {
                let out = request.output_dir.clone();
                if let IoReply::Answer(true) = reply {
                    CompressProgress::Next(
                        CompressJob { request, stage: CompressStage::RemovingOutput },
                        IoRequest::RemoveDirAll(out),
                    )
                } else {
                    CompressProgress::Next(
                        CompressJob { request, stage: CompressStage::CreatingOutput },
                        IoRequest::CreateDirAll(out),
                    )
                }
            },
            CompressStage::RemovingOutput => {
                match reply {
                    IoReply::Completed(Err(m)) => done_err(
                        message3("failed to remove ", request.output_dir.as_str(), ": ", m.as_str()),
                    ),
                    _ => {
                        let out = request.output_dir.clone();
                        CompressProgress::Next(
                            CompressJob { request, stage: CompressStage::CreatingOutput },
                            IoRequest::CreateDirAll(out),
                        )
                    },
                }
            },
            CompressStage::CreatingOutput => {
                match reply {
                    IoReply::Completed(Err(m)) => done_err(
                        message3("failed to create ", request.output_dir.as_str(), ": ", m.as_str()),
                    ),
                    _ => {
                        let cmd = full_probe(request.input.as_str());
                        CompressProgress::Next(
                            CompressJob { request, stage: CompressStage::FullProbe },
                            IoRequest::Run(cmd),
                        )
                    },
                }
            },
            CompressStage::FullProbe => {
                let cmd = full_probe(request.input.as_str());
                match reply {
                    IoReply::Ran(rep) => match command_output(&cmd, rep) {
                        Err(e) => done_err(e),
                        Ok(o) => {
                            let path = push_name(request.output_dir.as_str(), "source-ffprobe.json");
                            CompressProgress::Next(
                                CompressJob { request, stage: CompressStage::WritingFullProbe },
                                IoRequest::WriteFile(path, o),
                            )
                        },
                    },
                    _ => {
                        proof {
                            assert(false);
                        }
                        done_err(String::new())
                    },
                }
            },
            CompressStage::WritingFullProbe => {
                match reply {
                    IoReply::Completed(Err(m)) => done_err(
                        message("failed to write ffprobe metadata: ", m.as_str()),
                    ),
                    _ => {
                        let cmd = mdls(request.input.as_str());
                        CompressProgress::Next(
                            CompressJob { request, stage: CompressStage::Mdls },
                            IoRequest::Run(cmd),
                        )
                    },
                }
            },
            CompressStage::Mdls => {
                let cmd = mdls(request.input.as_str());
                match reply {
                    IoReply::Ran(rep) => match command_output(&cmd, rep) {
                        Err(e) => done_err(e),
                        Ok(o) => {
                            let path = push_name(request.output_dir.as_str(), "source-mdls.txt");
                            CompressProgress::Next(
                                CompressJob { request, stage: CompressStage::WritingMdls },
                                IoRequest::WriteFile(path, o),
                            )
                        },
                    },
                    _ => {
                        proof {
                            assert(false);
                        }
                        done_err(String::new())
                    },
                }
            },
            CompressStage::WritingMdls => {
                match reply {
                    IoReply::Completed(Err(m)) => done_err(
                        message("failed to write mdls metadata: ", m.as_str()),
                    ),
                    _ => {
                        let cmd = xattr(request.input.as_str());
                        CompressProgress::Next(
                            CompressJob { request, stage: CompressStage::Xattr },
                            IoRequest::Run(cmd),
                        )
                    },
                }
            },
            CompressStage::Xattr => {
                let cmd = xattr(request.input.as_str());
                match reply {
                    IoReply::Ran(rep) => match command_output(&cmd, rep) {
                        Err(e) => done_err(e),
                        Ok(o) => {
                            let path = push_name(request.output_dir.as_str(), "source-xattrs.txt");
                            CompressProgress::Next(
                                CompressJob { request, stage: CompressStage::WritingXattr },
                                IoRequest::WriteFile(path, o),
                            )
                        },
                    },
                    _ => {
                        proof {
                            assert(false);
                        }
                        done_err(String::new())
                    },
                }
            },
            CompressStage::WritingXattr => {
                match reply {
                    IoReply::Completed(Err(m)) => done_err(
                        message("failed to write xattr metadata: ", m.as_str()),
                    ),
                    _ => {
                        let cmd = json_probe(request.input.as_str());
                        CompressProgress::Next(
                            CompressJob { request, stage: CompressStage::SourceProbe },
                            IoRequest::Run(cmd),
                        )
                    },
                }
            },
            CompressStage::SourceProbe => {
                let cmd = json_probe(request.input.as_str());
                match reply {
                    IoReply::Ran(rep) => match command_output(&cmd, rep) {
                        Err(e) => done_err(e),
                        Ok(o) => match parse_probe(o) {
                            Err(e) => done_err(e),
                            Ok(doc) => match find_audio_stream(&doc) {
                                Err(e) => done_err(e),
                                Ok(stream) => match probe_duration_text(&doc) {
                                    Err(e) => done_err(e),
                                    Ok(t) => CompressProgress::Next(
                                        CompressJob {
                                            request,
                                            stage: CompressStage::SourceDuration { doc, stream },
                                        },
                                        IoRequest::ParseDuration(t),
                                    ),
                                },
                            },
                        },
                    },
                    _ => {
                        proof {
                            assert(false);
                        }
                        done_err(String::new())
                    },
                }
            },
            CompressStage::SourceDuration { doc, stream } => {
                match reply {
                    IoReply::Duration(Err(m)) => done_err(message("bad duration: ", m.as_str())),
                    IoReply::Duration(Ok(ms)) => {
                        match extract_source_audio_metadata(&doc, stream, request.input.clone(), ms) {
                            Err(e) => done_err(e),
                            Ok(source) => {
                                let ap = push_name(request.output_dir.as_str(), "audio.ogg");
                                proof {
                                    reveal_strlit("audio.ogg");
                                    reveal_strlit("audio.");
                                    reveal_strlit("ogg");
                                    assert("audio.ogg"@ =~= audio_file_name());
                                }
                                let cmd = encode(request.input.as_str(), ap.as_str());
                                CompressProgress::Next(
                                    CompressJob { request, stage: CompressStage::Encoding { source } },
                                    IoRequest::Run(cmd),
                                )
                            },
                        }
                    },
                    _ => {
                        proof {
                            assert(false);
                        }
                        done_err(String::new())
                    },
                }
            },
            CompressStage::Encoding { source } => {
                let ap = push_name(request.output_dir.as_str(), "audio.ogg");
                proof {
                    reveal_strlit("audio.ogg");
                    reveal_strlit("audio.");
                    reveal_strlit("ogg");
                    assert("audio.ogg"@ =~= audio_file_name());
                }
                let cmd = encode(request.input.as_str(), ap.as_str());
                match reply {
                    IoReply::Ran(rep) => match command_output(&cmd, rep) {
                        Err(e) => done_err(e),
                        Ok(_) => {
                            let probe = json_probe(ap.as_str());
                            CompressProgress::Next(
                                CompressJob { request, stage: CompressStage::OutputProbe { source } },
                                IoRequest::Run(probe),
                            )
                        },
                    },
                    _ => {
                        proof {
                            assert(false);
                        }
                        done_err(String::new())
                    },
                }
            },
            CompressStage::OutputProbe { source } => {
                let ap = push_name(request.output_dir.as_str(), "audio.ogg");
                proof {
                    reveal_strlit("audio.ogg");
                    reveal_strlit("audio.");
                    reveal_strlit("ogg");
                    assert("audio.ogg"@ =~= audio_file_name());
                }
                let cmd = json_probe(ap.as_str());
                match reply {
                    IoReply::Ran(rep) => match command_output(&cmd, rep) {
                        Err(e) => done_err(e),
                        Ok(o) => match parse_probe(o) {
                            Err(e) => done_err(e),
                            Ok(doc) => match find_audio_stream(&doc) {
                                Err(e) => done_err(e),
                                Ok(stream) => match probe_duration_text(&doc) {
                                    Err(e) => done_err(e),
                                    Ok(t) => CompressProgress::Next(
                                        CompressJob {
                                            request,
                                            stage: CompressStage::OutputDuration { source, doc, stream },
                                        },
                                        IoRequest::ParseDuration(t),
                                    ),
                                },
                            },
                        },
                    },
                    _ => {
                        proof {
                            assert(false);
                        }
                        done_err(String::new())
                    },
                }
            },
            CompressStage::OutputDuration { source, doc, stream } => {
                match reply {
                    IoReply::Duration(Err(m)) => done_err(message("bad duration: ", m.as_str())),
                    IoReply::Duration(Ok(ms)) => {
                        match extract_output_audio_metadata(&doc, stream, ms) {
                            Err(e) => done_err(e),
                            Ok(output) => CompressProgress::Next(
                                CompressJob { request, stage: CompressStage::Clock { source, output } },
                                IoRequest::ReadClock,
                            ),
                        }
                    },
                    _ => {
                        proof {
                            assert(false);
                        }
                        done_err(String::new())
                    },
                }
            },
            CompressStage::Clock { source, output } => {
                match reply {
                    IoReply::Clock(Err(m)) => done_err(
                        message("system clock before unix epoch: ", m.as_str()),
                    ),
                    IoReply::Clock(Ok(ms)) => {
                        let bundle = assemble_bundle(source, output, ms);
                        let path = push_name(request.output_dir.as_str(), "bundle.json");
                        CompressProgress::Next(
                            CompressJob { request, stage: CompressStage::WritingBundle },
                            IoRequest::WriteBundle(path, bundle),
                        )
                    },
                    _ => {
                        proof {
                            assert(false);
                        }
                        done_err(String::new())
                    },
                }
            },
            CompressStage::WritingBundle => {
                let path = push_name(request.output_dir.as_str(), "bundle.json");
                match reply {
                    IoReply::BundleWritten(Ok(_)) => {
                        let ap = push_name(request.output_dir.as_str(), "audio.ogg");
                        proof {
                            reveal_strlit("audio.ogg");
                            reveal_strlit("audio.");
                            reveal_strlit("ogg");
                            assert("audio.ogg"@ =~= audio_file_name());
                        }
                        CompressProgress::Done(
                            Ok(CompressResult { bundle_dir: request.output_dir, audio_path: ap }),
                        )
                    },
                    IoReply::BundleWritten(Err(BundleWriteError::Create(m))) => done_err(
                        message3("failed to create ", path.as_str(), ": ", m.as_str()),
                    ),
                    IoReply::BundleWritten(Err(BundleWriteError::Serialize(m))) => done_err(
                        message("failed to write bundle metadata: ", m.as_str()),
                    ),
                    IoReply::BundleWritten(Err(BundleWriteError::Finalize(m))) => done_err(
                        message("failed to finalize bundle metadata: ", m.as_str()),
                    ),
                    _ => {
                        proof {
                            assert(false);
                        }
                        done_err(String::new())
                    },
                }
            },
        }
    }
}

} // verus!

verus! {

/// What holds of every stage a compression reaches: the report it holds
/// was read at its first audio stream, the source metadata it carries
/// names the requested input, and the output metadata names the bundle's
/// audio file.
pub open spec fn stage_wf(job: CompressJobView) -> bool {
    let input = job.request.input;
    match job.stage {
        StageView::SourceDuration { doc, stream } => is_first_audio_stream(doc, stream),
        StageView::Encoding { source } => source.source_relpath == input,
        StageView::OutputProbe { source } => source.source_relpath == input,
        StageView::OutputDuration { source, doc, stream } => source.source_relpath == input
            && is_first_audio_stream(doc, stream),
        StageView::Clock { source, output } => source.source_relpath == input
            && output.audio_relpath == audio_file_name(),
        _ => true,
    }
}

/// A compression keeps its request, always asks next for the kind of reply
/// it will wait for, keeps its stage well formed, and, when it succeeds,
/// reports the requested bundle directory and the `audio.ogg` inside it;
/// it succeeds only on the news that `bundle.json` was written.
pub proof fn lemma_compress_step(job: CompressJobView, reply: IoReplyView)
    requires
        reply_kind_of(reply) == awaits(job.stage),
        stage_wf(job),
    ensures
        compress_next(job, reply) matches CompressProgressView::Next(j, io) ==> {
            &&& j.request == job.request
            &&& awaits(j.stage) == reply_kind_for(io)
            &&& stage_wf(j)
        },
        compress_next(job, reply) matches CompressProgressView::Done(Ok(r)) ==> {
            &&& r.bundle_dir == job.request.output_dir
            &&& r.audio_path == audio_path(job.request.output_dir)
            &&& job.stage is WritingBundle
            &&& reply matches IoReplyView::BundleWritten(Ok(_))
        },
{
    let input = job.request.input;
    let out = job.request.output_dir;
    match job.stage {
        StageView::SourceProbe => {
            if let IoReplyView::Ran(rep) = reply {
                if let Ok(o) = command_outcome(json_probe_command(input), rep) {
                    if let Ok(text) = probe_parse_outcome(o) {
                        lemma_audio_stream_is_first(text);
                    }
                }
            }
        },
        StageView::OutputProbe { .. } => {
            if let IoReplyView::Ran(rep) = reply {
                if let Ok(o) = command_outcome(json_probe_command(audio_path(out)), rep) {
                    if let Ok(text) = probe_parse_outcome(o) {
                        lemma_audio_stream_is_first(text);
                    }
                }
            }
        },
        _ => {},
    }
}

/// What a compression writes as `bundle.json` goes into the requested
/// directory, is an audio bundle of format version 1 made with the default
/// encoding (Opus, `.ogg`, 16 kHz, mono, 24 kbit/s), names this producer
/// and the side files, carries an identifier made from its creation time,
/// and records the requested input as the source and `audio.ogg` as the
/// output.
pub proof fn lemma_bundle_contents(job: CompressJobView, reply: IoReplyView)
    requires
        reply_kind_of(reply) == awaits(job.stage),
        stage_wf(job),
    ensures
        compress_next(job, reply) matches CompressProgressView::Next(_, IoRequestView::WriteBundle(p, b)) ==> {
            &&& p == bundle_json_path(job.request.output_dir)
            &&& b.format == "audio-bundle"@
            &&& b.format_version == 1
            &&& b.compression == default_compression()
            &&& b.producer == this_producer()
            &&& b.metadata_artifacts == default_artifacts()
            &&& b.bundle_id == bundle_id_text(b.created_at_unix_ms)
            &&& b.source_audio.source_relpath == job.request.input
            &&& b.output_audio.audio_relpath == audio_file_name()
        },
{
}

/// A compression starts well formed.
pub proof fn lemma_compress_start(request: CompressRequestView)
    ensures
        stage_wf(CompressJobView { request, stage: StageView::InputExists }),
{
}

/// The source metadata `s` is what the report `doc` gives of its stream at
/// `stream`, for the file `input` with a duration of `ms` milliseconds.
pub open spec fn source_read_at(
    s: SourceAudioView,
    doc: Seq<u8>,
    stream: nat,
    input: Seq<char>,
    ms: u64,
) -> bool {
    &&& s.source_relpath == input
    &&& s.duration_ms == ms
    &&& size_bytes(doc) == Ok::<u64, Seq<char>>(s.file_size_bytes)
    &&& s.container_format == before_first(
        text_or(json_leaf_at(doc, "/format/format_name"@), "unknown"@),
        ',',
    )
    &&& s.creation_time == opt_text(json_leaf_at(doc, "/format/tags/creation_time"@))
    &&& s.audio_codec == text_or(
        json_leaf_at(doc, stream_field_pointer(stream, "codec_name"@)),
        "unknown"@,
    )
    &&& s.sample_rate_hz == rate_value(json_leaf_at(doc, stream_field_pointer(stream, "sample_rate"@)))
    &&& s.channels == count_value(json_leaf_at(doc, stream_field_pointer(stream, "channels"@)))
    &&& s.channel_layout == opt_text(
        json_leaf_at(doc, stream_field_pointer(stream, "channel_layout"@)),
    )
    &&& s.bits_per_sample == count_value(
        json_leaf_at(doc, stream_field_pointer(stream, "bits_per_sample"@)),
    )
}

/// The output metadata `o` is what the report `doc` gives of its stream at
/// `stream`, for the bundle's audio file with a duration of `ms`
/// milliseconds.
pub open spec fn output_read_at(o: OutputAudioView, doc: Seq<u8>, stream: nat, ms: u64) -> bool {
    &&& o.audio_relpath == audio_file_name()
    &&& o.duration_ms == ms
    &&& size_bytes(doc) == Ok::<u64, Seq<char>>(o.file_size_bytes)
    &&& o.sample_rate_hz == rate_value(json_leaf_at(doc, stream_field_pointer(stream, "sample_rate"@)))
    &&& o.channels == count_value(json_leaf_at(doc, stream_field_pointer(stream, "channels"@)))
}

/// The source metadata a stage carries, if it carries any.
pub open spec fn stage_source(stage: StageView) -> Option<SourceAudioView> {
    match stage {
        StageView::Encoding { source } => Some(source),
        StageView::OutputProbe { source } => Some(source),
        StageView::OutputDuration { source, .. } => Some(source),
        StageView::Clock { source, .. } => Some(source),
        _ => None,
    }
}

/// The metadata of a compression is read from the first audio stream of
/// each report: when the duration of the source arrives, the source
/// metadata kept is what the source's report gives of its first audio
/// stream, and when the duration of the output arrives, the output
/// metadata kept is what the output's report gives of its first audio
/// stream.
pub proof fn lemma_metadata_from_first_audio_stream(job: CompressJobView, reply: IoReplyView)
    requires
        reply_kind_of(reply) == awaits(job.stage),
        stage_wf(job),
    ensures
        job.stage matches StageView::SourceDuration { doc, stream } ==> is_first_audio_stream(
            doc,
            stream,
        ),
        job.stage matches StageView::OutputDuration { doc, stream, .. } ==> is_first_audio_stream(
            doc,
            stream,
        ),
        job.stage matches StageView::SourceDuration { doc, stream } ==> match compress_next(job, reply) {
            CompressProgressView::Next(j, _) => {
                &&& reply matches IoReplyView::Duration(Ok(ms))
                &&& j.stage matches StageView::Encoding { source }
                &&& source_read_at(source, doc, stream, job.request.input, ms)
            },
            CompressProgressView::Done(_) => true,
        },
        job.stage matches StageView::OutputDuration { doc, stream, source } ==> match compress_next(job, reply) {
            CompressProgressView::Next(j, _) => {
                &&& reply matches IoReplyView::Duration(Ok(ms))
                &&& j.stage matches StageView::Clock { source: s2, output }
                &&& s2 == source
                &&& output_read_at(output, doc, stream, ms)
            },
            CompressProgressView::Done(_) => true,
        },
{
}

/// Once the source metadata is read, a compression encodes the input with
/// ffmpeg, dropping any video, to one channel at 16000 Hz with libopus at
/// 24 kbit/s, into `audio.ogg` inside the bundle directory, and requires
/// ffmpeg to succeed.
pub proof fn lemma_encodes_mono_16k_opus(job: CompressJobView, reply: IoReplyView)
    requires
        reply_kind_of(reply) == awaits(job.stage),
        stage_wf(job),
    ensures
        job.stage is SourceDuration ==> match compress_next(job, reply) {
            CompressProgressView::Next(_, io) => {
                &&& io matches IoRequestView::Run(c)
                &&& c.program == "ffmpeg"@
                &&& c.require_success
                &&& c.args == seq![
                    "-y"@,
                    "-v"@,
                    "error"@,
                    "-i"@,
                    job.request.input,
                    "-vn"@,
                    "-ac"@,
                    "1"@,
                    "-ar"@,
                    "16000"@,
                    "-c:a"@,
                    "libopus"@,
                    "-b:a"@,
                    "24k"@,
                    "-application"@,
                    "voip"@,
                    pushed(job.request.output_dir, "audio.ogg"@),
                ]
            },
            CompressProgressView::Done(_) => true,
        },
{
    reveal_strlit("1");
    reveal_strlit("16000");
    reveal_strlit("audio.ogg");
    reveal_strlit("audio.");
    reveal_strlit("ogg");
    assert("audio.ogg"@ =~= audio_file_name());
    reveal_with_fuel(decimal, 6);
    assert(decimal(1) =~= "1"@);
    assert(decimal(16000) =~= "16000"@);
}

/// Once a compression holds the source metadata, it keeps it unchanged
/// until it asks to write `bundle.json`, and the bundle it asks to write
/// records that source metadata and the output metadata it holds.
pub proof fn lemma_source_kept_until_bundle(job: CompressJobView, reply: IoReplyView)
    requires
        reply_kind_of(reply) == awaits(job.stage),
        stage_wf(job),
    ensures
        stage_source(job.stage) matches Some(s) ==> match compress_next(job, reply) {
            CompressProgressView::Next(_, IoRequestView::WriteBundle(_, b)) => b.source_audio == s,
            CompressProgressView::Next(j, _) => stage_source(j.stage) == Some(s),
            CompressProgressView::Done(_) => true,
        },
        job.stage matches StageView::Clock { output, .. } ==> match compress_next(job, reply) {
            CompressProgressView::Next(_, IoRequestView::WriteBundle(_, b)) => b.output_audio == output,
            _ => true,
        },
{
}

} // verus!

verus! {

/// Starts the compression that `request` asks for: its first request is
/// whether the input exists.
pub fn compress(request: &CompressRequest) -> (r: (CompressJob, IoRequest))
    ensures
        r.0@ == (CompressJobView { request: request@, stage: StageView::InputExists }),
        r.1@ == IoRequestView::PathExists(request@.input),
        awaits(r.0@.stage) == reply_kind_for(r.1@),
{
    let copy = CompressRequest { input: request.input.clone(), output_dir: request.output_dir.clone() };
    CompressJob::start(copy)
}

/// Starts the compression of `input` into the bundle directory
/// `output_dir`.
pub fn compress_to_dir(input: &str, output_dir: &str) -> (r: (CompressJob, IoRequest))
    ensures
        r.0@ == (CompressJobView {
            request: CompressRequestView { input: input@, output_dir: output_dir@ },
            stage: StageView::InputExists,
        }),
        r.1@ == IoRequestView::PathExists(input@),
        awaits(r.0@.stage) == reply_kind_for(r.1@),
{
    CompressJob::start(CompressRequest::new(input, output_dir))
}

} // verus!

verus! {

/// The lasting pieces of work of a compression.
pub enum Work {
    SourceReport,
    SourceMdls,
    SourceXattrs,
    Encoding,
    BundleJson,
}

/// Which lasting piece of work `io` is, for the compression `req`: writing
/// ffprobe's full report, the mdls metadata or the extended attributes
/// beside the bundle, encoding the audio into the bundle, or writing
/// `bundle.json`.
pub open spec fn work_of(req: CompressRequestView, io: IoRequestView) -> Option<Work> {
    let out = req.output_dir;
    match io {
        IoRequestView::WriteFile(p, _) => if p == pushed(out, "source-ffprobe.json"@) {
            Some(Work::SourceReport)
        } else if p == pushed(out, "source-mdls.txt"@) {
            Some(Work::SourceMdls)
        } else if p == pushed(out, "source-xattrs.txt"@) {
            Some(Work::SourceXattrs)
        } else {
            None
        },
        IoRequestView::Run(c) => if c == encode_command(req.input, audio_path(out)) {
            Some(Work::Encoding)
        } else {
            None
        },
        IoRequestView::WriteBundle(p, _) => if p == bundle_json_path(out) {
            Some(Work::BundleJson)
        } else {
            None
        },
        _ => None,
    }
}

/// The lasting pieces of work among the requests `asked`, in order.
pub open spec fn works(req: CompressRequestView, asked: Seq<IoRequestView>) -> Seq<Work>
    decreases asked.len(),
{
    if asked.len() == 0 {
        seq![]
    } else {
        match work_of(req, asked[0]) {
            Some(w) => seq![w] + works(req, asked.drop_first()),
            None => works(req, asked.drop_first()),
        }
    }
}

/// A compression driven from `job` by the replies `replies`, in order:
/// how it ended, if it did, and the requests it made on the way.
pub open spec fn drive(job: CompressJobView, replies: Seq<IoReplyView>) -> (
    Option<Result<CompressResultView, Seq<char>>>,
    Seq<IoRequestView>,
)
    decreases replies.len(),
{
    if replies.len() == 0 {
        (None, seq![])
    } else {
        match compress_next(job, replies[0]) {
            CompressProgressView::Next(j, io) => {
                let rest = drive(j, replies.drop_first());
                (rest.0, seq![io] + rest.1)
            },
            CompressProgressView::Done(r) => (Some(r), seq![]),
        }
    }
}

/// The lasting work still ahead of a compression at `stage`.
pub open spec fn work_ahead(stage: StageView) -> Seq<Work> {
    let all = seq![
        Work::SourceReport,
        Work::SourceMdls,
        Work::SourceXattrs,
        Work::Encoding,
        Work::BundleJson,
    ];
    match stage {
        StageView::InputExists => all,
        StageView::InputIsFile => all,
        StageView::OutputExists => all,
        StageView::RemovingOutput => all,
        StageView::CreatingOutput => all,
        StageView::FullProbe => all,
        StageView::WritingFullProbe => all.skip(1),
        StageView::Mdls => all.skip(1),
        StageView::WritingMdls => all.skip(2),
        StageView::Xattr => all.skip(2),
        StageView::WritingXattr => all.skip(3),
        StageView::SourceProbe => all.skip(3),
        StageView::SourceDuration { .. } => all.skip(3),
        StageView::Encoding { .. } => all.skip(4),
        StageView::OutputProbe { .. } => all.skip(4),
        StageView::OutputDuration { .. } => all.skip(4),
        StageView::Clock { .. } => all.skip(4),
        StageView::WritingBundle => all.skip(5),
    }
}

proof fn lemma_side_paths_differ(out: Seq<char>)
    ensures
        pushed(out, "source-ffprobe.json"@) != pushed(out, "source-mdls.txt"@),
        pushed(out, "source-ffprobe.json"@) != pushed(out, "source-xattrs.txt"@),
        pushed(out, "source-mdls.txt"@) != pushed(out, "source-xattrs.txt"@),
{
    reveal_strlit("source-ffprobe.json");
    reveal_strlit("source-mdls.txt");
    reveal_strlit("source-xattrs.txt");
    let a = "source-ffprobe.json"@;
    let b = "source-mdls.txt"@;
    let c = "source-xattrs.txt"@;
    assert(a.len() == 19 && a[0] == 's');
    assert(b.len() == 15 && b[0] == 's');
    assert(c.len() == 17 && c[0] == 's');
    assert(pushed(out, a).len() == pushed(out, b).len() + 4);
    assert(pushed(out, a).len() == pushed(out, c).len() + 2);
    assert(pushed(out, c).len() == pushed(out, b).len() + 2);
}

#[verifier::rlimit(40)]
proof fn lemma_step_work(job: CompressJobView, reply: IoReplyView)
    ensures
        compress_next(job, reply) matches CompressProgressView::Next(j, io) ==> {
            &&& j.request == job.request
            &&& work_ahead(job.stage) == match work_of(job.request, io) {
                Some(w) => seq![w] + work_ahead(j.stage),
                None => work_ahead(j.stage),
            }
        },
        compress_next(job, reply) matches CompressProgressView::Done(Ok(_)) ==> work_ahead(
            job.stage,
        ).len() == 0,
{
    let input = job.request.input;
    let out = job.request.output_dir;
    lemma_side_paths_differ(out);
    reveal_strlit("ffmpeg");
    reveal_strlit("ffprobe");
    reveal_strlit("mdls");
    reveal_strlit("xattr");
    let all = seq![
        Work::SourceReport,
        Work::SourceMdls,
        Work::SourceXattrs,
        Work::Encoding,
        Work::BundleJson,
    ];
    assert(all =~= seq![Work::SourceReport] + all.skip(1));
    assert(all.skip(1) =~= seq![Work::SourceMdls] + all.skip(2));
    assert(all.skip(2) =~= seq![Work::SourceXattrs] + all.skip(3));
    assert(all.skip(3) =~= seq![Work::Encoding] + all.skip(4));
    assert(all.skip(4) =~= seq![Work::BundleJson] + all.skip(5));
    assert(all.skip(5).len() == 0);
    let enc = encode_command(input, audio_path(out));
    assert(full_probe_command(input) != enc);
    assert(json_probe_command(input) != enc);
    assert(json_probe_command(audio_path(out)) != enc);
    assert(mdls_command(input) != enc);
    assert(xattr_command(input) != enc);
}

proof fn lemma_drive_work(job: CompressJobView, replies: Seq<IoReplyView>)
    ensures
        drive(job, replies).0 matches Some(Ok(_)) ==> works(job.request, drive(job, replies).1)
            == work_ahead(job.stage),
    decreases replies.len(),
{
    if replies.len() > 0 {
        lemma_step_work(job, replies[0]);
        match compress_next(job, replies[0]) {
            CompressProgressView::Next(j, io) => {
                lemma_drive_work(j, replies.drop_first());
                let rest = drive(j, replies.drop_first());
                let asked = seq![io] + rest.1;
                assert(asked[0] == io);
                assert(asked.drop_first() =~= rest.1);
            },
            CompressProgressView::Done(_) => {},
        }
    }
}

/// A compression that succeeds has done its lasting work once each and in
/// this order: it wrote ffprobe's full report, then the mdls metadata, then
/// the extended attributes beside the bundle, then encoded the audio into
/// the bundle, and last wrote `bundle.json`; whatever replies drove it.
pub proof fn lemma_success_does_all_work_in_order(
    request: CompressRequestView,
    replies: Seq<IoReplyView>,
)
    ensures
        ({
            let job = CompressJobView { request, stage: StageView::InputExists };
            drive(job, replies).0 matches Some(Ok(_)) ==> works(
                request,
                seq![IoRequestView::PathExists(request.input)] + drive(job, replies).1,
            ) == seq![
                Work::SourceReport,
                Work::SourceMdls,
                Work::SourceXattrs,
                Work::Encoding,
                Work::BundleJson,
            ]
        }),
{
    let job = CompressJobView { request, stage: StageView::InputExists };
    lemma_drive_work(job, replies);
    let asked = seq![IoRequestView::PathExists(request.input)] + drive(job, replies).1;
    assert(asked.drop_first() =~= drive(job, replies).1);
}

} // verus!
