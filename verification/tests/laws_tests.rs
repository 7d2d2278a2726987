use tj_videoprep::encode::{audio_filter_chain, outcome_of, plan, progress_permyriad, EncodeRequest};
use tj_videoprep::json::JsonValue;
use tj_videoprep::probe::{align_note, delay_ms, probe, recommendation_for};
use tj_videoprep::tools::{ffmpeg_candidates, first_existing, mpv_search_paths, Settings};

fn obj(entries: Vec<(&str, JsonValue)>) -> JsonValue {
    JsonValue::Object(entries.into_iter().map(|(k, v)| (k.to_string(), v)).collect())
}

fn audio(start: &str) -> JsonValue {
    obj(vec![
        ("codec_type", JsonValue::Str("audio".to_string())),
        ("start_time", JsonValue::Str(start.to_string())),
    ])
}

#[test]
fn alignment_law_on_examples() {
    let mut r = EncodeRequest::default();
    r.delay_ms = 250;
    assert!(audio_filter_chain(&r).starts_with("adelay=250:all=1"));
    r.delay_ms = -250;
    assert!(audio_filter_chain(&r).starts_with("atrim=start=0.250000"));
    r.delay_ms = 3;
    assert_eq!(audio_filter_chain(&r), "");
    r.apply_align = false;
    r.delay_ms = 250;
    assert_eq!(audio_filter_chain(&r), "");
}

#[test]
fn note_agrees_with_export_on_examples() {
    for d in [-7i64, -6, -5, 0, 5, 6, 1000] {
        let mut r = EncodeRequest::default();
        r.delay_ms = d;
        let no_filter = audio_filter_chain(&r).is_empty();
        let says_none = align_note(d) == "音轨与视频起点一致，无需补偿";
        assert_eq!(no_filter, says_none, "{}", d);
    }
}

#[test]
fn probe_offset_feeds_export() {
    let root = obj(vec![(
        "streams",
        JsonValue::Array(vec![
            obj(vec![
                ("codec_type", JsonValue::Str("video".to_string())),
                ("height", JsonValue::Number("720".to_string())),
                ("start_time", JsonValue::Str("1.000000".to_string())),
            ]),
            audio("1.300000"),
            audio("0.000000"),
        ]),
    )]);
    let p = probe("x.mkv", &root);
    assert_eq!(p.delay_ms, 300);
    assert_eq!(p.audios[0].ordinal, 0);
    assert_eq!(p.audios[1].ordinal, 1);
    let mut r = EncodeRequest::default();
    r.delay_ms = p.delay_ms;
    assert_eq!(audio_filter_chain(&r), "adelay=300:all=1");
}

#[test]
fn delay_sign_on_examples() {
    assert_eq!(delay_ms(2_500_000, 1_000_000), -delay_ms(1_000_000, 2_500_000));
    assert!(delay_ms(2_500_000, 1_000_000) > 0);
    assert_eq!(delay_ms(42, 42), 0);
}

#[test]
fn defaults_idempotent_on_example() {
    let mut s = Settings::default();
    s.high_crf = 22;
    let once = s.with_defaults();
    let twice = once.clone().with_defaults();
    assert_eq!(once.high_crf, 22);
    assert_eq!(twice.high_crf, once.high_crf);
    assert_eq!(twice.preview_height, once.preview_height);
    assert_eq!(twice.audio_codec, once.audio_codec);
    assert_eq!(twice.audio_mode, once.audio_mode);
    assert_eq!(twice.audio_bitrate, once.audio_bitrate);
}

#[test]
fn explicit_choice_wins_on_example() {
    let c = ffmpeg_candidates("ffmpeg", " /opt/ff/ffmpeg ", "/app", &vec!["/usr/bin".to_string()], &None, &None, false);
    assert_eq!(first_existing(&c, &vec![true, true, true, true]), Some("/opt/ff/ffmpeg".to_string()));
    assert_eq!(first_existing(&c, &vec![false, false, false, true]), Some("/usr/bin/ffmpeg".to_string()));
    let m = mpv_search_paths("/x/mpv", "/app", &Vec::new(), &None, &None, false);
    assert_eq!(first_existing(&m, &vec![true, true]), Some("/x/mpv".to_string()));
}

#[test]
fn one_output_per_step_on_example() {
    let mut r = EncodeRequest::default();
    r.want_high = true;
    r.want_remux = true;
    let steps = plan(&r);
    let o = outcome_of(&steps);
    assert_eq!(o.outputs.len(), 4);
    for (i, s) in steps.iter().enumerate() {
        assert_eq!(&o.outputs[i], s.1.last().unwrap());
        assert_eq!(s.1[s.1.len() - 2], "-y");
    }
}

#[test]
fn primary_track_on_example() {
    assert_eq!(recommendation_for("main", "eng", false, 1).0, "primary");
    assert_eq!(recommendation_for("main", "eng", true, 4).0, "primary");
}

#[test]
fn progress_bounded_on_example() {
    for idx in 0..3u64 {
        for out in [-5i64, 0, 500, 1000, 5000] {
            assert!(progress_permyriad(idx, 3, out, 1000) <= 10000);
        }
    }
    assert_eq!(progress_permyriad(2, 3, 1000, 1000), 10000);
}

#[test]
fn written_offsets_read_back_on_examples() {
    for d in [-1234i64, -6, -999_999_999, -5_000] {
        let mut r = EncodeRequest::default();
        r.delay_ms = d;
        let chain = audio_filter_chain(&r);
        let start = chain.strip_prefix("atrim=start=").unwrap().split(',').next().unwrap();
        assert_eq!(tj_videoprep::text::parse_scaled(start, 3), Some(-d));
    }
    for d in [6i64, 42, i64::MAX] {
        let mut r = EncodeRequest::default();
        r.delay_ms = d;
        let chain = audio_filter_chain(&r);
        let amount = chain.strip_prefix("adelay=").unwrap().strip_suffix(":all=1").unwrap();
        assert_eq!(tj_videoprep::text::parse_i64(amount), Some(d));
    }
}

#[test]
fn plan_outputs_follow_a_trailing_slash_directly() {
    let mut r = EncodeRequest::default();
    r.video = "in.mkv".to_string();
    r.out_dir = "out/".to_string();
    r.base_name = "movie".to_string();
    r.want_remux = true;
    let steps = plan(&r);
    let outs: Vec<&str> = steps.iter().map(|s| s.1.last().unwrap().as_str()).collect();
    assert_eq!(outs, vec!["out/movie.audio.flac", "out/movie.preview.720p.mp4", "out/movie.remux.mkv"]);
    assert_eq!(plan(&r), steps);
}
