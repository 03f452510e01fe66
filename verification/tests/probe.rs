use lifelog_audio_compression::probe::{
    extract_output_audio_metadata, extract_source_audio_metadata, find_audio_stream, parse_probe,
    probe_duration_text,
};

const SOURCE: &str = r#"{"streams":[{"index":0,"codec_type":"video","codec_name":"h264"},
{"index":1,"codec_type":"audio","codec_name":"pcm_f32le","sample_rate":"48000","channels":1,
"channel_layout":"mono","bits_per_sample":32}],
"format":{"format_name":"mov,mp4,m4a","duration":"1.234000","size":"123",
"tags":{"creation_time":"2024-01-01T00:00:00.000000Z"}}}"#;

#[test]
fn source_metadata_comes_from_the_first_audio_stream() {
    let doc = parse_probe(SOURCE.as_bytes().to_vec()).unwrap();
    let stream = find_audio_stream(&doc).unwrap();
    assert_eq!(stream, 1);
    assert_eq!(probe_duration_text(&doc).unwrap(), "1.234000");
    let m = extract_source_audio_metadata(&doc, stream, "clip.mov".to_string(), 1234).unwrap();
    assert_eq!(m.source_relpath, "clip.mov");
    assert_eq!(m.file_size_bytes, 123);
    assert_eq!(m.container_format, "mov");
    assert_eq!(m.audio_codec, "pcm_f32le");
    assert_eq!(m.duration_ms, 1234);
    assert_eq!(m.sample_rate_hz, 48000);
    assert_eq!(m.channels, 1);
    assert_eq!(m.channel_layout.as_deref(), Some("mono"));
    assert_eq!(m.bits_per_sample, 32);
    assert_eq!(m.creation_time.as_deref(), Some("2024-01-01T00:00:00.000000Z"));
}

#[test]
fn missing_fields_take_their_defaults() {
    let text = r#"{"streams":[{"codec_type":"audio","sample_rate":"fast","channels":-2,
        "bits_per_sample":4294967298}],"format":{"duration":"2","size":"+7"}}"#;
    let doc = parse_probe(text.as_bytes().to_vec()).unwrap();
    let stream = find_audio_stream(&doc).unwrap();
    let m = extract_source_audio_metadata(&doc, stream, "x".to_string(), 2000).unwrap();
    assert_eq!(m.container_format, "unknown");
    assert_eq!(m.audio_codec, "unknown");
    assert_eq!(m.sample_rate_hz, 0);
    assert_eq!(m.channels, 0);
    assert_eq!(m.bits_per_sample, 2);
    assert_eq!(m.channel_layout, None);
    assert_eq!(m.creation_time, None);
    assert_eq!(m.file_size_bytes, 7);
}

#[test]
fn output_metadata_names_the_ogg_file() {
    let doc = parse_probe(SOURCE.as_bytes().to_vec()).unwrap();
    let m = extract_output_audio_metadata(&doc, 1, 1234).unwrap();
    assert_eq!(m.audio_relpath, "audio.ogg");
    assert_eq!(m.file_size_bytes, 123);
    assert_eq!(m.duration_ms, 1234);
    assert_eq!(m.sample_rate_hz, 48000);
    assert_eq!(m.channels, 1);
}

#[test]
fn probe_errors() {
    let e = parse_probe(b"{oops".to_vec()).err().unwrap();
    assert!(e.starts_with("failed to parse ffprobe json: "), "{e}");
    let doc = parse_probe(br#"{"format":{}}"#.to_vec()).unwrap();
    assert_eq!(find_audio_stream(&doc).unwrap_err(), "ffprobe streams missing");
    let doc = parse_probe(br#"{"streams":[{"codec_type":"video"}],"format":{}}"#.to_vec()).unwrap();
    assert_eq!(find_audio_stream(&doc).unwrap_err(), "no audio stream found");
    assert_eq!(probe_duration_text(&doc).unwrap_err(), "format duration missing");
    assert_eq!(extract_output_audio_metadata(&doc, 0, 1).unwrap_err(), "format size missing");
    let doc = parse_probe(br#"{"format":{"size":"12k"}}"#.to_vec()).unwrap();
    assert_eq!(
        extract_output_audio_metadata(&doc, 0, 1).unwrap_err(),
        "bad size: invalid digit found in string"
    );
    let doc = parse_probe(br#"{"format":{"size":12}}"#.to_vec()).unwrap();
    assert_eq!(extract_output_audio_metadata(&doc, 0, 1).unwrap_err(), "format size missing");
}
