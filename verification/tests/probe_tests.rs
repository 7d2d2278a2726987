use tj_videoprep::json::JsonValue;
use tj_videoprep::probe::{
    align_note, assemble_probe, audio_track, bit_rate_label, channel_layout_name, delay_ms, is_hdr,
    is_deep_pixel_format, is_mastering_type, probe, probe_report, recommendation_for, recommend,
    video_info,
};

fn s(t: &str) -> JsonValue {
    JsonValue::Str(t.to_string())
}

fn n(t: &str) -> JsonValue {
    JsonValue::Number(t.to_string())
}

fn obj(entries: Vec<(&str, JsonValue)>) -> JsonValue {
    JsonValue::Object(entries.into_iter().map(|(k, v)| (k.to_string(), v)).collect())
}

fn video_stream(index: &str, height: &str, start: &str, pix: &str) -> JsonValue {
    obj(vec![
        ("index", n(index)),
        ("codec_type", s("video")),
        ("codec_name", s("h264")),
        ("width", n("1920")),
        ("height", n(height)),
        ("r_frame_rate", s("24000/1001")),
        ("start_time", s(start)),
        ("pix_fmt", s(pix)),
    ])
}

fn audio_stream(index: &str, lang: &str, title: &str, channels: &str, layout: Option<&str>, start: &str, default: &str) -> JsonValue {
    let mut e = vec![
        ("index", n(index)),
        ("codec_type", s("audio")),
        ("codec_name", s("ac3")),
        ("channels", n(channels)),
        ("sample_rate", s("48000")),
        ("bit_rate", s("640000")),
        ("start_time", s(start)),
        ("disposition", obj(vec![("default", n(default))])),
        ("tags", obj(vec![("language", s(lang)), ("title", s(title))])),
    ];
    if let Some(l) = layout {
        e.push(("channel_layout", s(l)));
    }
    obj(e)
}

fn report(streams: Vec<JsonValue>) -> JsonValue {
    obj(vec![
        (
            "format",
            obj(vec![
                ("format_name", s("matroska,webm")),
                ("format_long_name", s("Matroska / WebM")),
                ("duration", s("5400.123000")),
                ("size", n("123456789")),
            ]),
        ),
        ("streams", JsonValue::Array(streams)),
    ])
}

#[test]
fn probe_reads_tracks_offset_and_format() {
    let root = report(vec![
        video_stream("0", "1080", "0.000000", "yuv420p10le"),
        audio_stream("1", "eng", "Main", "6", Some("5.1(side)"), "0.120000", "1"),
        audio_stream("2", "jpn", "Director's COMMENTARY", "2", None, "0.120000", "0"),
        obj(vec![("index", n("3")), ("codec_type", s("subtitle"))]),
    ]);
    let r = probe("/media/films/movie.mkv", &root);
    assert_eq!(r.file_name, "movie.mkv");
    assert_eq!(r.file_path, "/media/films/movie.mkv");
    assert_eq!(r.format_name, "matroska,webm");
    assert_eq!(r.format_long_name, "Matroska / WebM");
    assert_eq!(r.duration_us, 5_400_123_000);
    assert_eq!(r.size_bytes, 123456789);
    assert_eq!(r.video.stream_index, 0);
    assert_eq!(r.video.height, 1080);
    assert_eq!(r.video.width, 1920);
    assert_eq!(r.video.r_frame_rate, "24000/1001");
    assert!(r.video.is_hdr);
    assert_eq!(r.audios.len(), 2);
    let a = &r.audios[0];
    assert_eq!(a.stream_index, 1);
    assert_eq!(a.ordinal, 0);
    assert_eq!(a.codec, "ac3");
    assert_eq!(a.language, "eng");
    assert_eq!(a.channels, 6);
    assert_eq!(a.channel_layout, "5.1(side)");
    assert_eq!(a.sample_rate, "48000");
    assert_eq!(a.bit_rate, "640 kbps");
    assert_eq!(a.start_time_ns, 120_000_000);
    assert!(a.is_default);
    assert_eq!(a.recommendation, "primary");
    assert_eq!(a.note, "容器默认音轨");
    let b = &r.audios[1];
    assert_eq!(b.ordinal, 1);
    assert_eq!(b.channel_layout, "stereo");
    assert!(!b.is_default);
    assert_eq!(b.recommendation, "commentary");
    assert_eq!(b.note, "疑似评论音轨");
    assert_eq!(r.delay_ms, 120);
    assert_eq!(r.align_note, "音轨比视频晚 120 ms，导出音频时将在头部补静音对齐");
    assert_eq!(
        r.raw_summary,
        "#1 a:0 ac3 6ch eng Main\n#2 a:1 ac3 2ch jpn Director's COMMENTARY"
    );
}

#[test]
fn probe_without_audio_reports_it() {
    let root = report(vec![video_stream("0", "720", "0.5", "yuv420p")]);
    let r = probe("clip.mp4", &root);
    assert_eq!(r.file_name, "clip.mp4");
    assert_eq!(r.audios.len(), 0);
    assert_eq!(r.delay_ms, 0);
    assert_eq!(r.align_note, "未找到音频流");
    assert_eq!(r.raw_summary, "");
    assert!(!r.video.is_hdr);
    assert_eq!(r.video.start_time_ns, 500_000_000);
}

#[test]
fn probe_size_given_as_text_reads_as_zero() {
    let root = obj(vec![(
        "format",
        obj(vec![("size", s("1000")), ("duration", n("12"))]),
    )]);
    let r = assemble_probe("a.mkv", "a.mkv".to_string(), &root);
    assert_eq!(r.size_bytes, 0);
    assert_eq!(r.duration_us, 12_000_000);
    assert_eq!(r.format_name, "");
}

#[test]
fn probe_earlier_audio_is_cut() {
    let root = report(vec![
        video_stream("0", "1080", "0.042000", "yuv420p"),
        audio_stream("1", "und", "", "2", Some("stereo"), "0.000000", "0"),
    ]);
    let r = probe("m.mkv", &root);
    assert_eq!(r.delay_ms, -42);
    assert_eq!(r.align_note, "音轨比视频早 42 ms，导出音频时将裁掉开头对齐");
    assert_eq!(r.audios[0].recommendation, "primary");
    assert_eq!(r.audios[0].note, "唯一音轨");
}

#[test]
fn probe_small_offset_needs_no_compensation() {
    let root = report(vec![
        video_stream("0", "1080", "0.000000", "yuv420p"),
        audio_stream("1", "eng", "", "2", None, "0.004000", "0"),
        audio_stream("2", "fra", "", "2", None, "0.004000", "0"),
    ]);
    let r = probe("m.mkv", &root);
    assert_eq!(r.delay_ms, 4);
    assert_eq!(r.align_note, "音轨与视频起点一致，无需补偿");
    assert_eq!(r.audios[0].recommendation, "alternate");
    assert_eq!(r.audios[0].note, "备选音轨");
}

#[test]
fn probe_skips_zero_height_then_takes_next_video_and_keeps_first_real_one() {
    let root = report(vec![
        video_stream("0", "0", "1.0", "yuv420p"),
        video_stream("1", "1080", "0.0", "yuv420p"),
        video_stream("2", "600", "2.0", "mjpeg"),
    ]);
    let r = probe("m.mkv", &root);
    assert_eq!(r.video.stream_index, 1);
    assert_eq!(r.video.height, 1080);
}

#[test]
fn delay_rounds_half_away_from_zero() {
    assert_eq!(delay_ms(1_500_000, 0), 2);
    assert_eq!(delay_ms(1_499_999, 0), 1);
    assert_eq!(delay_ms(0, 1_500_000), -2);
    assert_eq!(delay_ms(0, 1_499_999), -1);
    assert_eq!(delay_ms(7, 7), 0);
    assert_eq!(delay_ms(2_499_500, 0), 2);
    assert_eq!(delay_ms(i64::MAX, i64::MIN), 18446744073710);
}

#[test]
fn align_notes() {
    assert_eq!(align_note(5), "音轨与视频起点一致，无需补偿");
    assert_eq!(align_note(-5), "音轨与视频起点一致，无需补偿");
    assert_eq!(align_note(6), "音轨比视频晚 6 ms，导出音频时将在头部补静音对齐");
    assert_eq!(align_note(-6), "音轨比视频早 6 ms，导出音频时将裁掉开头对齐");
}

#[test]
fn recommendations() {
    assert_eq!(recommendation_for("main", "eng", false, 1), ("primary".to_string(), "唯一音轨".to_string()));
    assert_eq!(recommendation_for("main", "eng", true, 3), ("primary".to_string(), "容器默认音轨".to_string()));
    assert_eq!(recommendation_for("main", "eng", false, 3), ("alternate".to_string(), "备选音轨".to_string()));
    assert_eq!(recommendation_for("导演评论", "", false, 1).0, "commentary");
    assert_eq!(recommendation_for("解説", "", true, 1).0, "commentary");
    assert_eq!(recommendation_for("", "comment", true, 1).0, "commentary");
}

#[test]
fn recommend_lowercases_title_and_language() {
    let st = audio_stream("1", "ENG", "COMMENTARY track", "2", None, "0", "1");
    let t = audio_track(&st, 0);
    assert_eq!(recommend(&t, 2).0, "commentary");
    let st2 = audio_stream("1", "COMMENT", "Main", "2", None, "0", "0");
    let t2 = audio_track(&st2, 0);
    assert_eq!(recommend(&t2, 2).0, "commentary");
}

#[test]
fn channel_layout_names() {
    assert_eq!(channel_layout_name(&obj(vec![("channels", n("1"))])), "mono");
    assert_eq!(channel_layout_name(&obj(vec![("channels", n("2"))])), "stereo");
    assert_eq!(channel_layout_name(&obj(vec![("channels", s("6"))])), "5.1");
    assert_eq!(channel_layout_name(&obj(vec![("channels", n("8"))])), "7.1");
    assert_eq!(channel_layout_name(&obj(vec![("channels", n("3"))])), "");
    assert_eq!(
        channel_layout_name(&obj(vec![("channels", n("2")), ("channel_layout", s("downmix"))])),
        "downmix"
    );
}

#[test]
fn hdr_detection() {
    let side = JsonValue::Array(vec![obj(vec![(
        "side_data_type",
        s("Mastering Display Metadata"),
    )])]);
    assert!(is_hdr(&obj(vec![("pix_fmt", s("yuv420p")), ("side_data_list", side)])));
    assert!(is_hdr(&obj(vec![("pix_fmt", s("YUV420P12LE"))])));
    assert!(!is_hdr(&obj(vec![("pix_fmt", s("yuv420p"))])));
    assert!(!is_hdr(&obj(vec![])));
}

#[test]
fn bit_rate_labels() {
    assert_eq!(bit_rate_label(640000), "640 kbps");
    assert_eq!(bit_rate_label(999), "0 kbps");
    assert_eq!(bit_rate_label(0), "");
    assert_eq!(bit_rate_label(-5), "");
}

#[test]
fn video_info_defaults_when_fields_missing() {
    let v = video_info(&obj(vec![("start_time", s("N/A")), ("height", s("x"))]));
    assert_eq!(v.height, 0);
    assert_eq!(v.start_time_ns, 0);
    assert_eq!(v.codec, "");
}

#[test]
fn default_flag_only_for_number_one() {
    let st = obj(vec![("disposition", obj(vec![("default", s("1"))]))]);
    assert!(!audio_track(&st, 0).is_default);
    let st2 = obj(vec![("disposition", obj(vec![("default", n("1"))]))]);
    assert!(audio_track(&st2, 0).is_default);
}

const REPORT_TEXT: &str = r#"{
  "streams": [
    {"index": 0, "codec_type": "video", "codec_name": "hevc", "width": 3840, "height": 2160,
     "r_frame_rate": "24/1", "start_time": "0.000000", "pix_fmt": "yuv420p",
     "side_data_list": [{"side_data_type": "Mastering display metadata"}]},
    {"index": 1, "codec_type": "audio", "codec_name": "eac3", "channels": 6,
     "channel_layout": "5.1", "sample_rate": "48000", "bit_rate": "768000",
     "start_time": "-0.0425004", "disposition": {"default": 1},
     "tags": {"language": "eng", "title": "Surround"}}
  ],
  "format": {"format_name": "matroska,webm", "format_long_name": "Matroska / WebM",
             "duration": "7200.0000004", "size": "987654321"}
}"#;

#[test]
fn probe_report_reads_the_report_text() {
    let r = probe_report("/media/films/movie.mkv", REPORT_TEXT).unwrap();
    assert_eq!(r.file_name, "movie.mkv");
    assert_eq!(r.format_name, "matroska,webm");
    assert_eq!(r.duration_us, 7_200_000_000);
    assert_eq!(r.size_bytes, 0);
    assert_eq!(r.video.height, 2160);
    assert!(r.video.is_hdr);
    assert_eq!(r.audios.len(), 1);
    assert_eq!(r.audios[0].start_time_ns, -42_500_400);
    assert_eq!(r.audios[0].channels, 6);
    assert_eq!(r.delay_ms, -43);
    assert_eq!(r.align_note, "音轨比视频早 43 ms，导出音频时将裁掉开头对齐");
}

#[test]
fn probe_report_refuses_text_that_is_not_json() {
    let e = probe_report("movie.mkv", "ffprobe: No such file").unwrap_err();
    assert!(e.starts_with("ffprobe 输出解析失败: "));
    assert!(e.len() > "ffprobe 输出解析失败: ".len());
    let e = probe_report("movie.mkv", "").unwrap_err();
    assert!(e.starts_with("ffprobe 输出解析失败: "));
}

#[test]
fn hdr_markers_on_lower_case_text() {
    assert!(is_mastering_type("mastering display metadata"));
    assert!(!is_mastering_type("Mastering display metadata"));
    assert!(!is_mastering_type("content light level metadata"));
    assert!(is_deep_pixel_format("yuv420p10le"));
    assert!(is_deep_pixel_format("p012"));
    assert!(!is_deep_pixel_format("yuv420p"));
}

#[test]
fn offset_rounds_once_from_the_report() {
    let text = r#"{"streams": [
        {"codec_type": "video", "height": 1080, "start_time": "0"},
        {"codec_type": "audio", "start_time": "0.0024995"}
    ], "format": {}}"#;
    let r = probe_report("a.mkv", text).unwrap();
    assert_eq!(r.audios[0].start_time_ns, 2_499_500);
    assert_eq!(r.delay_ms, 2);
}

#[test]
fn file_names_of_paths() {
    let text = r#"{"streams": [], "format": {}}"#;
    assert_eq!(probe_report("/media/a.mkv", text).unwrap().file_name, "a.mkv");
    assert_eq!(probe_report("a.mkv", text).unwrap().file_name, "a.mkv");
    let b = probe_report("C:\\films\\b.mkv", text).unwrap().file_name;
    assert!(b == "b.mkv" || b == "C:\\films\\b.mkv");
}
