use lifelog_audio_compression::bundle::{bundle_id, CommandReport};
use lifelog_audio_compression::io::{BundleWriteError, DirEntryInfo, DirListing, IoReply, IoRequest};
use lifelog_audio_compression::{
    BatchJob, BatchProgress, BundleMetadata, CompressJob, CompressProgress, CompressRequest,
    CompressResult,
};
use std::collections::BTreeMap;

const SOURCE: &str = r#"{"streams":[{"index":0,"codec_type":"audio","codec_name":"pcm_s16le",
"sample_rate":"44100","channels":2,"channel_layout":"stereo","bits_per_sample":16}],
"format":{"format_name":"wav","duration":"2.0005","size":"352844"}}"#;

const OUTPUT: &str = r#"{"streams":[{"index":0,"codec_type":"audio","codec_name":"opus",
"sample_rate":"16000","channels":1}],"format":{"format_name":"ogg","duration":"2.001","size":"6000"}}"#;

fn ran(stdout: &[u8]) -> IoReply {
    IoReply::Ran(CommandReport {
        spawn_error: None,
        success: true,
        stdout: stdout.to_vec(),
        stderr: String::new(),
    })
}

/// A world where every outside step works; `tweak` may answer a request
/// differently.
struct World {
    files: Vec<String>,
    written: BTreeMap<String, Vec<u8>>,
    bundles: Vec<(String, BundleMetadata)>,
    commands: Vec<(String, Vec<String>)>,
}

impl World {
    fn new(files: &[&str]) -> Self {
        World {
            files: files.iter().map(|s| s.to_string()).collect(),
            written: BTreeMap::new(),
            bundles: Vec::new(),
            commands: Vec::new(),
        }
    }

    fn reply(&mut self, req: &IoRequest) -> IoReply {
        match req {
            IoRequest::PathExists(p) => IoReply::Answer(self.files.contains(p)),
            IoRequest::PathIsFile(p) => IoReply::Answer(self.files.contains(p)),
            IoRequest::PathIsDir(_) => IoReply::Answer(true),
            IoRequest::RemoveDirAll(_) | IoRequest::CreateDirAll(_) => IoReply::Completed(Ok(())),
            IoRequest::Run(cmd) => {
                self.commands.push((cmd.program.clone(), cmd.args.clone()));
                let last = cmd.args.last().cloned().unwrap_or_default();
                match cmd.program.as_str() {
                    "ffprobe" if cmd.args.contains(&"-show_format".to_string()) => ran(b"{\"full\":true}"),
                    "ffprobe" if last.ends_with("audio.ogg") => ran(OUTPUT.as_bytes()),
                    "ffprobe" => ran(SOURCE.as_bytes()),
                    "mdls" => ran(b"kMDItemKind = audio"),
                    "xattr" => IoReply::Ran(CommandReport {
                        spawn_error: None,
                        success: false,
                        stdout: Vec::new(),
                        stderr: "no attrs".to_string(),
                    }),
                    _ => ran(b""),
                }
            }
            IoRequest::WriteFile(p, bytes) => {
                self.written.insert(p.clone(), bytes.clone());
                IoReply::Completed(Ok(()))
            }
            IoRequest::ParseDuration(t) => {
                IoReply::Duration(Ok((t.parse::<f64>().unwrap() * 1000.0).round() as u64))
            }
            IoRequest::ReadClock => IoReply::Clock(Ok(0x18c2a3b4c5d)),
            IoRequest::WriteBundle(p, b) => {
                self.bundles.push((p.clone(), b.clone()));
                IoReply::BundleWritten(Ok(()))
            }
            IoRequest::ListDir(_) => IoReply::Listed(Ok(DirListing { entries: vec![], error: None })),
        }
    }
}

fn run_compress(
    world: &mut World,
    input: &str,
    out: &str,
    mut tweak: impl FnMut(&IoRequest) -> Option<IoReply>,
) -> Result<CompressResult, String> {
    let (mut job, mut req) = CompressJob::start(CompressRequest::new(input, out));
    loop {
        let reply = match tweak(&req) {
            Some(r) => r,
            None => world.reply(&req),
        };
        assert_eq!(reply.kind(), req.reply_kind());
        match job.step(reply) {
            CompressProgress::Next(j, r) => {
                job = j;
                req = r;
            }
            CompressProgress::Done(res) => return res,
        }
    }
}

#[test]
fn compress_writes_a_bundle() {
    let mut world = World::new(&["in/clip.wav"]);
    let res = run_compress(&mut world, "in/clip.wav", "out", |_| None).unwrap();
    assert_eq!(res.bundle_dir, "out");
    assert_eq!(res.audio_path, "out/audio.ogg");
    assert_eq!(world.written["out/source-ffprobe.json"], b"{\"full\":true}".to_vec());
    assert_eq!(world.written["out/source-mdls.txt"], b"kMDItemKind = audio".to_vec());
    assert_eq!(world.written["out/source-xattrs.txt"], Vec::<u8>::new());
    let (path, bundle) = &world.bundles[0];
    assert_eq!(path, "out/bundle.json");
    assert_eq!(bundle.format, "audio-bundle");
    assert_eq!(bundle.format_version, 1);
    assert_eq!(bundle.bundle_id, "ab_18c2a3b4c5d");
    assert_eq!(bundle.created_at_unix_ms, 0x18c2a3b4c5d);
    assert_eq!(bundle.producer.name, "lifelog-audio-compression");
    assert_eq!(bundle.producer.version, "0.1.0");
    assert_eq!(bundle.compression.codec, "opus");
    assert_eq!(bundle.compression.container_extension, "ogg");
    assert_eq!(bundle.compression.sample_rate_hz, 16000);
    assert_eq!(bundle.compression.channels, 1);
    assert_eq!(bundle.compression.bitrate, "24k");
    assert_eq!(bundle.source_audio.source_relpath, "in/clip.wav");
    assert_eq!(bundle.source_audio.duration_ms, 2001);
    assert_eq!(bundle.source_audio.channels, 2);
    assert_eq!(bundle.source_audio.channel_layout.as_deref(), Some("stereo"));
    assert_eq!(bundle.output_audio.audio_relpath, "audio.ogg");
    assert_eq!(bundle.output_audio.file_size_bytes, 6000);
    assert_eq!(bundle.output_audio.sample_rate_hz, 16000);
    assert_eq!(bundle.metadata_artifacts.ffprobe_relpath, "source-ffprobe.json");
    assert_eq!(bundle.metadata_artifacts.mdls_relpath, "source-mdls.txt");
    assert_eq!(bundle.metadata_artifacts.xattrs_relpath, "source-xattrs.txt");
    let ffmpeg = world.commands.iter().find(|(p, _)| p == "ffmpeg").unwrap();
    let expected: Vec<String> = [
        "-y", "-v", "error", "-i", "in/clip.wav", "-vn", "-ac", "1", "-ar", "16000", "-c:a", "libopus",
        "-b:a", "24k", "-application", "voip", "out/audio.ogg",
    ]
    .iter()
    .map(|s| s.to_string())
    .collect();
    assert_eq!(ffmpeg.1, expected);
}

#[test]
fn compress_refuses_a_missing_input() {
    let mut world = World::new(&[]);
    let e = run_compress(&mut world, "nothing.wav", "out", |_| None).unwrap_err();
    assert_eq!(e, "input does not exist: nothing.wav");
}

#[test]
fn compress_refuses_a_directory_input() {
    let mut world = World::new(&["dir"]);
    let e = run_compress(&mut world, "dir", "out", |r| match r {
        IoRequest::PathIsFile(_) => Some(IoReply::Answer(false)),
        _ => None,
    })
    .unwrap_err();
    assert_eq!(e, "input is not a file: dir");
}

#[test]
fn compress_replaces_an_existing_bundle() {
    let mut world = World::new(&["a.wav", "out/"]);
    let mut removed = false;
    let res = run_compress(&mut world, "a.wav", "out/", |r| match r {
        IoRequest::RemoveDirAll(p) => {
            assert_eq!(p, "out/");
            removed = true;
            Some(IoReply::Completed(Ok(())))
        }
        _ => None,
    });
    assert!(removed);
    assert_eq!(res.unwrap().audio_path, "out/audio.ogg");
}

#[test]
fn compress_reports_each_failure() {
    let cases: Vec<(Box<dyn Fn(&IoRequest) -> Option<IoReply>>, &str)> = vec![
        (
            Box::new(|r| matches!(r, IoRequest::CreateDirAll(_)).then(|| IoReply::Completed(Err("denied".into())))),
            "failed to create out: denied",
        ),
        (
            Box::new(|r| match r {
                IoRequest::Run(c) if c.program == "mdls" => Some(IoReply::Ran(CommandReport {
                    spawn_error: Some("not found".into()),
                    success: false,
                    stdout: vec![],
                    stderr: String::new(),
                })),
                _ => None,
            }),
            "failed to run `mdls`: not found",
        ),
        (
            Box::new(|r| match r {
                IoRequest::Run(c) if c.program == "ffmpeg" => Some(IoReply::Ran(CommandReport {
                    spawn_error: None,
                    success: false,
                    stdout: vec![],
                    stderr: "boom".into(),
                })),
                _ => None,
            }),
            "`ffmpeg` failed: boom",
        ),
        (
            Box::new(|r| match r {
                IoRequest::WriteFile(p, _) if p.ends_with("mdls.txt") => Some(IoReply::Completed(Err("full".into()))),
                _ => None,
            }),
            "failed to write mdls metadata: full",
        ),
        (
            Box::new(|r| matches!(r, IoRequest::ParseDuration(_)).then(|| IoReply::Duration(Err("invalid float literal".into())))),
            "bad duration: invalid float literal",
        ),
        (
            Box::new(|r| matches!(r, IoRequest::ReadClock).then(|| IoReply::Clock(Err("second time provided was later than self".into())))),
            "system clock before unix epoch: second time provided was later than self",
        ),
        (
            Box::new(|r| matches!(r, IoRequest::WriteBundle(..)).then(|| IoReply::BundleWritten(Err(BundleWriteError::Create("ro".into()))))),
            "failed to create out/bundle.json: ro",
        ),
        (
            Box::new(|r| matches!(r, IoRequest::WriteBundle(..)).then(|| IoReply::BundleWritten(Err(BundleWriteError::Serialize("x".into()))))),
            "failed to write bundle metadata: x",
        ),
        (
            Box::new(|r| matches!(r, IoRequest::WriteBundle(..)).then(|| IoReply::BundleWritten(Err(BundleWriteError::Finalize("y".into()))))),
            "failed to finalize bundle metadata: y",
        ),
        (
            Box::new(|r| match r {
                IoRequest::Run(c) if c.program == "ffprobe" && c.args.contains(&"-show_entries".to_string()) => {
                    Some(ran(b"not json"))
                }
                _ => None,
            }),
            "failed to parse ffprobe json: expected ident at line 1 column 2",
        ),
    ];
    for (tweak, expected) in cases {
        let mut world = World::new(&["in.wav"]);
        let e = run_compress(&mut world, "in.wav", "out", |r| tweak(r)).unwrap_err();
        assert_eq!(e, expected);
    }
}

fn listing(paths: &[(&str, bool)]) -> IoReply {
    IoReply::Listed(Ok(DirListing {
        entries: paths
            .iter()
            .map(|(p, d)| DirEntryInfo { path: p.to_string(), is_dir: *d, is_file: !*d })
            .collect(),
        error: None,
    }))
}

fn run_batch(
    world: &mut World,
    root: &str,
    out: &str,
    mut tweak: impl FnMut(&IoRequest) -> Option<IoReply>,
) -> Result<lifelog_audio_compression::BatchCompressResult, String> {
    let (mut job, mut req) = BatchJob::start(root, out);
    loop {
        let reply = match tweak(&req) {
            Some(r) => r,
            None => world.reply(&req),
        };
        assert_eq!(reply.kind(), job.awaited());
        match job.step(reply) {
            BatchProgress::Next(j, r) => {
                job = j;
                req = r;
            }
            BatchProgress::Done(res) => return res,
        }
    }
}

#[test]
fn batch_compresses_every_supported_file_in_path_order() {
    let files = ["in/b.wav", "in/a.MP3", "in/notes.txt", "in/sub/c.flac", "in/sub"];
    let mut world = World::new(&files);
    world.files.push("in".into());
    let res = run_batch(&mut world, "in", "out", |r| match r {
        IoRequest::ListDir(d) if d == "in" => Some(listing(&[
            ("in/b.wav", false),
            ("in/sub", true),
            ("in/notes.txt", false),
            ("in/a.MP3", false),
        ])),
        IoRequest::ListDir(d) if d == "in/sub" => Some(listing(&[("in/sub/c.flac", false)])),
        _ => None,
    })
    .unwrap();
    assert_eq!(res.output_root, "out");
    assert_eq!(res.item_count, 3);
    let got: Vec<(&str, &str, &str)> = res
        .items
        .iter()
        .map(|i| (i.input.as_str(), i.bundle_dir.as_str(), i.audio_path.as_str()))
        .collect();
    assert_eq!(
        got,
        vec![
            ("in/a.MP3", "out/a", "out/a/audio.ogg"),
            ("in/b.wav", "out/b", "out/b/audio.ogg"),
            ("in/sub/c.flac", "out/sub/c", "out/sub/c/audio.ogg"),
        ]
    );
    assert_eq!(world.bundles.len(), 3);
}

#[test]
fn batch_of_an_empty_directory_has_no_items() {
    let mut world = World::new(&["in"]);
    let res = run_batch(&mut world, "in", "out", |_| None).unwrap();
    assert_eq!(res.item_count, 0);
    assert!(res.items.is_empty());
}

#[test]
fn batch_errors() {
    let mut world = World::new(&[]);
    assert_eq!(run_batch(&mut world, "in", "out", |_| None).unwrap_err(), "input root does not exist: in");
    let mut world = World::new(&["in"]);
    let e = run_batch(&mut world, "in", "out", |r| match r {
        IoRequest::PathIsDir(_) => Some(IoReply::Answer(false)),
        _ => None,
    });
    assert_eq!(e.unwrap_err(), "input root is not a directory: in");
    let mut world = World::new(&["in"]);
    let e = run_batch(&mut world, "in", "out", |r| match r {
        IoRequest::ListDir(_) => Some(IoReply::Listed(Err("Permission denied (os error 13)".into()))),
        _ => None,
    });
    assert_eq!(e.unwrap_err(), "failed to read in: Permission denied (os error 13)");
    let mut world = World::new(&["in"]);
    let e = run_batch(&mut world, "in", "out", |r| match r {
        IoRequest::ListDir(_) => Some(IoReply::Listed(Ok(DirListing {
            entries: vec![DirEntryInfo { path: "in/x.txt".into(), is_dir: false, is_file: true }],
            error: Some("bad entry".into()),
        }))),
        _ => None,
    });
    assert_eq!(e.unwrap_err(), "failed to read dir entry: bad entry");
    let mut world = World::new(&["in", "out"]);
    let e = run_batch(&mut world, "in", "out", |r| match r {
        IoRequest::RemoveDirAll(_) => Some(IoReply::Completed(Err("busy".into()))),
        _ => None,
    });
    assert_eq!(e.unwrap_err(), "failed to remove out: busy");
}

#[test]
fn entry_points_start_with_the_input_check() {
    let (job, req) = lifelog_audio_compression::compress_to_dir("a.wav", "out");
    assert!(matches!(req, IoRequest::PathExists(ref p) if p == "a.wav"));
    assert_eq!(job.request, CompressRequest::new("a.wav", "out"));
    let (_, req) = lifelog_audio_compression::compress(&CompressRequest::new("b.wav", "o"));
    assert!(matches!(req, IoRequest::PathExists(ref p) if p == "b.wav"));
    let (job, req) = lifelog_audio_compression::compress_directory_to_dir("in", "out");
    assert!(matches!(req, IoRequest::PathExists(ref p) if p == "in"));
    assert_eq!(job.output_root, "out");
}

#[test]
fn bundle_ids_follow_the_clock() {
    assert_eq!(bundle_id(0), "ab_0");
    assert_eq!(bundle_id(1_700_000_000_000), "ab_18bcfe56800");
    assert_ne!(bundle_id(15), bundle_id(16));
}
