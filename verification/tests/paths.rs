use lifelog_audio_compression::order::{path_before, sort_by_path};
use lifelog_audio_compression::path::{extension, push_name};
use lifelog_audio_compression::{bundle_dir_for_input, is_supported_audio_file};
use std::path::{Path, PathBuf};

#[test]
fn supports_common_audio_extensions_case_insensitively() {
    assert!(is_supported_audio_file("clip.WAV"));
    assert!(is_supported_audio_file("clip.mp4"));
    assert!(is_supported_audio_file("clip.M4A"));
    assert!(!is_supported_audio_file("clip.jpg"));
}

#[test]
fn batch_bundle_dir_preserves_relative_structure() {
    let input_root = "/tmp/input";
    let input = "/tmp/input/NO NAME/TX00_MIC043_orig.wav";
    let output_root = "/tmp/output";
    let bundle_dir = bundle_dir_for_input(input_root, input, output_root).unwrap();
    assert_eq!(bundle_dir, "/tmp/output/NO NAME/TX00_MIC043_orig");
}

const SAMPLES: &[&str] = &[
    "", "/", "//", ".", "..", "./", "../", "a", "a/", "a/.", "a/..", "./a", "../a", "/a", "//a/b//c/",
    "a/./b", "a/../b", ".hidden", "dir/.hidden", "clip.", "clip.wav", "clip.WAV", "clip.tar.gz", "...",
    "..x", "a/...", "a/..x", "/tmp/input", "/tmp/input/", "/tmp/input/NO NAME/x.wav", "/tmp//input/./a.flac",
    "rel/dir/x.Mp3", "x.ogg/", "x.ogg/.", "é.wav", "dir.d/file", "/x.m4a", "a/b.c.d.mov", ".wav", "a/.wav",
    "/tmp/input//NO NAME/./x.wav/", "/tmp/input/./a//b.wav/.", "./a/./b.c", "a//b/../c.d", "/tmp/input/.",
    "a/b/.", "./", "a/.x", "..", "/a/b.", "a.b/c.d/",
];

#[test]
fn extension_matches_std() {
    for s in SAMPLES {
        let mine = extension(s).map(|v| v.into_iter().collect::<String>());
        let theirs = Path::new(s).extension().map(|e| e.to_str().unwrap().to_string());
        assert_eq!(mine, theirs, "extension of {s:?}");
    }
}

fn std_supported(s: &str) -> bool {
    let Some(ext) = Path::new(s).extension().and_then(|v| v.to_str()) else {
        return false;
    };
    matches!(
        &ext.to_ascii_lowercase()[..],
        "wav" | "mp3" | "m4a" | "aac" | "mp4" | "mov" | "ogg" | "flac"
    )
}

#[test]
fn supported_matches_std() {
    for s in SAMPLES {
        assert_eq!(is_supported_audio_file(s), std_supported(s), "support of {s:?}");
    }
    assert!(is_supported_audio_file("a/b/Song.FLAC"));
    assert!(!is_supported_audio_file("a/b/wav"));
    assert!(!is_supported_audio_file(".ogg"));
}

fn std_bundle_dir(root: &str, input: &str, out: &str) -> Option<PathBuf> {
    let rel = Path::new(input).strip_prefix(root).ok()?;
    let mut b = Path::new(out).join(rel);
    b.set_extension("");
    Some(b)
}

#[test]
fn bundle_dir_matches_std() {
    for root in SAMPLES {
        for input in SAMPLES {
            for out in ["/tmp/output", "out/", "", "/", "o//p", "./o/.", "o/."] {
                let mine = bundle_dir_for_input(root, input, out);
                match std_bundle_dir(root, input, out) {
                    Some(p) => {
                        let d = mine.unwrap_or_else(|e| panic!("{root:?} {input:?} {out:?}: {e}"));
                        assert_eq!(d, p.to_str().unwrap(), "{root:?} {input:?} {out:?}");
                    }
                    None => {
                        let e = mine.unwrap_err();
                        assert_eq!(
                            e,
                            format!(
                                "failed to compute relative path for {} under {}: prefix not found",
                                input, root
                            )
                        );
                    }
                }
            }
        }
    }
}

#[test]
fn bundle_dir_keeps_the_text_std_writes() {
    let d = bundle_dir_for_input("/tmp/input", "/tmp/input//NO NAME/./x.wav", "o//p").unwrap();
    assert_eq!(d, "o//p/NO NAME/./x");
    let d = bundle_dir_for_input("", "a/b.wav/", "out").unwrap();
    assert_eq!(d, "out/a/b");
}

#[test]
fn bundle_dir_error_names_both_paths() {
    let e = bundle_dir_for_input("/tmp/input", "/elsewhere/a.wav", "/tmp/output").unwrap_err();
    assert_eq!(
        e,
        "failed to compute relative path for /elsewhere/a.wav under /tmp/input: prefix not found"
    );
}

#[test]
fn push_name_matches_std_join() {
    for dir in SAMPLES {
        let mine = push_name(dir, "audio.ogg");
        let theirs = Path::new(dir).join("audio.ogg");
        assert_eq!(mine, theirs.to_str().unwrap(), "join of {dir:?}");
    }
    assert_eq!(push_name("out", "/abs"), "/abs");
}

#[test]
fn path_order_matches_std() {
    for a in SAMPLES {
        for b in SAMPLES {
            assert_eq!(path_before(a, b), Path::new(a) < Path::new(b), "{a:?} < {b:?}");
        }
    }
    assert!(path_before("a/b", "a-b/c"));
}

#[test]
fn sort_matches_std() {
    let inputs: Vec<String> = vec![
        "r/b.wav", "r/a-b/c.wav", "r/a/b.wav", "r/A.wav", "r/a.wav", "r/é.wav", "r/a/b.wav", "r//a.wav",
    ]
    .into_iter()
    .map(String::from)
    .collect();
    let mine = sort_by_path(inputs.clone());
    let mut theirs: Vec<PathBuf> = inputs.iter().map(PathBuf::from).collect();
    theirs.sort();
    let theirs: Vec<String> = theirs.into_iter().map(|p| p.to_str().unwrap().to_string()).collect();
    assert_eq!(mine, theirs);
}
