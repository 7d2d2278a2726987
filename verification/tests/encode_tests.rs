use tj_videoprep::encode::{
    audio_args, audio_filter_chain, centre_filter, describe_plan, execution_steps, ffmpeg_exit_message,
    ffmpeg_invocation, job_end, outcome_of, output_step, plan, progress_permyriad, progress_value,
    remux_args, seconds6, step_failure_message, step_start_message, video_high_args,
    video_preview_args, EncodeOutcome, EncodeRequest, OutputKind,
};

fn v(items: &[&str]) -> Vec<String> {
    items.iter().map(|s| s.to_string()).collect()
}

fn request() -> EncodeRequest {
    let mut r = EncodeRequest::default();
    r.video = "in.mkv".to_string();
    r.out_dir = "out".to_string();
    r.base_name = "movie".to_string();
    r
}

#[test]
fn default_request_values() {
    let r = EncodeRequest::default();
    assert!(r.want_audio);
    assert_eq!(r.audio_codec, "flac");
    assert_eq!(r.audio_mode, "stereo");
    assert_eq!(r.audio_bitrate, "320k");
    assert!(r.apply_align);
    assert!(r.want_preview);
    assert_eq!(r.preview_height, 720);
    assert_eq!(r.preview_crf, 30);
    assert!(!r.want_high);
    assert_eq!(r.high_crf, 18);
    assert!(!r.want_remux);
    assert_eq!(r.delay_ms, 0);
    assert_eq!(r.audio_ordinal, 0);
}

#[test]
fn default_plan_is_flac_stereo_and_preview() {
    let steps = plan(&request());
    assert_eq!(steps.len(), 2);
    assert_eq!(steps[0].0, "音频（FLAC / stereo）");
    assert_eq!(
        steps[0].1,
        v(&["-map", "0:a:0", "-vn", "-sn", "-dn", "-ac", "2", "-c:a", "flac", "-compression_level", "8", "-y", "out/movie.audio.flac"])
    );
    assert_eq!(steps[1].0, "视频预览（720p / CRF 30）");
    assert_eq!(
        steps[1].1,
        v(&["-map", "0:v:0", "-vf", "scale=-2:720", "-c:v", "libx264", "-preset", "veryfast", "-crf", "30", "-g", "24", "-pix_fmt", "yuv420p", "-an", "-sn", "-dn", "-movflags", "+faststart", "-y", "out/movie.preview.720p.mp4"])
    );
}

#[test]
fn all_outputs_in_order() {
    let mut r = request();
    r.want_high = true;
    r.want_remux = true;
    r.audio_codec = "mp3".to_string();
    r.audio_mode = "native".to_string();
    r.base_name = "  ".to_string();
    r.out_dir = String::new();
    let steps = plan(&r);
    assert_eq!(steps.len(), 4);
    assert_eq!(steps[0].0, "音频（MP3 / native）");
    assert_eq!(
        steps[0].1,
        v(&["-map", "0:a:0", "-vn", "-sn", "-dn", "-c:a", "libmp3lame", "-b:a", "320k", "-ar", "44100", "-y", "output.audio.mp3"])
    );
    assert_eq!(steps[2].0, "视频高质量（原分辨率 / CRF 18）");
    assert_eq!(steps[2].1.last().unwrap(), "output.high.mp4");
    assert_eq!(steps[3].0, "原样封装（无损 / -c copy）");
    assert_eq!(steps[3].1, v(&["-map", "0", "-c", "copy", "-map_metadata", "0", "-y", "output.remux.mkv"]));
}

#[test]
fn wav_and_center_on_surround() {
    let mut r = request();
    r.audio_codec = "wav".to_string();
    r.audio_mode = "center".to_string();
    r.channel_layout = "5.1(side)".to_string();
    r.audio_ordinal = -3;
    r.apply_align = false;
    r.delay_ms = 300;
    let a = audio_args(&r, "x.wav");
    assert_eq!(a, v(&["-map", "0:a:0", "-vn", "-sn", "-dn", "-af", "pan=mono|c0=FC", "-c:a", "pcm_s16le", "-y", "x.wav"]));
}

#[test]
fn center_without_centre_channel_downmixes() {
    let mut r = request();
    r.audio_mode = "center".to_string();
    r.channel_layout = "Stereo".to_string();
    r.delay_ms = 0;
    assert_eq!(audio_filter_chain(&r), "aformat=channel_layouts=mono");
    r.channel_layout = "7.1".to_string();
    assert_eq!(audio_filter_chain(&r), "pan=mono|c0=FC");
    r.channel_layout = "6 channels".to_string();
    assert_eq!(audio_filter_chain(&r), "pan=mono|c0=FC");
}

#[test]
fn alignment_filters() {
    let mut r = request();
    r.delay_ms = 120;
    assert_eq!(audio_filter_chain(&r), "adelay=120:all=1");
    r.delay_ms = -1234;
    assert_eq!(audio_filter_chain(&r), "atrim=start=1.234000,asetpts=PTS-STARTPTS");
    r.delay_ms = 5;
    assert_eq!(audio_filter_chain(&r), "");
    r.delay_ms = -5;
    assert_eq!(audio_filter_chain(&r), "");
    r.delay_ms = 6;
    r.audio_mode = "center".to_string();
    r.channel_layout = "mono".to_string();
    assert_eq!(audio_filter_chain(&r), "adelay=6:all=1,aformat=channel_layouts=mono");
    r.delay_ms = i64::MIN;
    assert_eq!(
        audio_filter_chain(&r),
        "atrim=start=9223372036854775.808000,asetpts=PTS-STARTPTS,aformat=channel_layouts=mono"
    );
}

#[test]
fn audio_args_with_filter_and_ordinal() {
    let mut r = request();
    r.audio_ordinal = 2;
    r.delay_ms = 40;
    let a = audio_args(&r, "o.flac");
    assert_eq!(
        a,
        v(&["-map", "0:a:2", "-vn", "-sn", "-dn", "-af", "adelay=40:all=1", "-ac", "2", "-c:a", "flac", "-compression_level", "8", "-y", "o.flac"])
    );
}

#[test]
fn preview_and_high_floors() {
    let mut r = request();
    r.preview_height = 100;
    r.preview_crf = 0;
    r.high_crf = 0;
    let p = video_preview_args(&r, "p.mp4");
    assert_eq!(p[3], "scale=-2:144");
    assert_eq!(p[9], "1");
    let h = video_high_args(&r, "h.mp4");
    assert_eq!(
        h,
        v(&["-map", "0:v:0", "-c:v", "libx264", "-preset", "medium", "-crf", "1", "-pix_fmt", "yuv420p", "-an", "-sn", "-dn", "-movflags", "+faststart", "-y", "h.mp4"])
    );
    let mut r2 = request();
    r2.preview_height = 100;
    r2.want_audio = false;
    let s = plan(&r2);
    assert_eq!(s[0].0, "视频预览（100p / CRF 30）");
    assert_eq!(s[0].1.last().unwrap(), "out/movie.preview.100p.mp4");
}

#[test]
fn remux_arguments() {
    assert_eq!(remux_args("a b.mkv"), v(&["-map", "0", "-c", "copy", "-map_metadata", "0", "-y", "a b.mkv"]));
}

#[test]
fn output_step_of_each_kind() {
    let r = request();
    assert_eq!(output_step(&r, OutputKind::High).1.last().unwrap(), "out/movie.high.mp4");
    assert_eq!(output_step(&r, OutputKind::Remux).1.last().unwrap(), "out/movie.remux.mkv");
}

#[test]
fn describe_plan_quotes_spaced_arguments() {
    let mut r = request();
    r.video = "my film.mkv".to_string();
    r.out_dir = "my dir".to_string();
    r.want_preview = false;
    let d = describe_plan(&r, "ffmpeg");
    assert_eq!(d.len(), 1);
    assert_eq!(
        d[0],
        "音频（FLAC / stereo）\nffmpeg -hide_banner -nostdin -progress pipe:1 -nostats -i \"my film.mkv\" -map 0:a:0 -vn -sn -dn -ac 2 -c:a flac -compression_level 8 -y \"my dir/movie.audio.flac\""
    );
}

#[test]
fn nothing_requested_is_an_error() {
    let mut r = request();
    r.want_audio = false;
    r.want_preview = false;
    match execution_steps(&r) {
        Err(e) => assert_eq!(e, "没有选择任何输出项"),
        Ok(_) => panic!("expected an error"),
    }
    assert_eq!(describe_plan(&r, "ffmpeg").len(), 0);
    let ok = execution_steps(&request()).unwrap();
    assert_eq!(ok.len(), 2);
}

#[test]
fn outcome_lists_each_step_output() {
    let steps = plan(&request());
    let o = outcome_of(&steps);
    assert_eq!(o.outputs, v(&["out/movie.audio.flac", "out/movie.preview.720p.mp4"]));
    let odd = vec![("x".to_string(), Vec::new()), ("y".to_string(), v(&["a", "b"]))];
    assert_eq!(outcome_of(&odd).outputs, v(&["b"]));
}

#[test]
fn invocation_puts_source_before_step_options() {
    let a = ffmpeg_invocation("in.mkv", &v(&["-map", "0", "-y", "o.mkv"]));
    assert_eq!(
        a,
        v(&["-hide_banner", "-nostdin", "-loglevel", "error", "-progress", "pipe:1", "-nostats", "-i", "in.mkv", "-map", "0", "-y", "o.mkv"])
    );
}

#[test]
fn step_messages() {
    assert_eq!(step_start_message("音频"), "音频 …");
    assert_eq!(step_failure_message("音频", "ffmpeg 退出码 Some(1)"), "音频 失败: ffmpeg 退出码 Some(1)");
    assert_eq!(ffmpeg_exit_message(Some(1)), "ffmpeg 退出码 Some(1)");
    assert_eq!(ffmpeg_exit_message(Some(-22)), "ffmpeg 退出码 Some(-22)");
    assert_eq!(ffmpeg_exit_message(None), "ffmpeg 退出码 None");
}

#[test]
fn progress_lines() {
    assert_eq!(progress_value("out_time_us=1500000"), Some(1500000));
    assert_eq!(progress_value("out_time_us= 42 "), Some(42));
    assert_eq!(progress_value("out_time_us=N/A"), None);
    assert_eq!(progress_value("out_time_ms=1500000"), None);
    assert_eq!(progress_value("out_time_us=-5"), Some(-5));
    assert_eq!(progress_value("out_time_us=12.9"), Some(13));
}

#[test]
fn progress_percentages() {
    assert_eq!(progress_permyriad(0, 2, 500_000, 1_000_000), 2500);
    assert_eq!(progress_permyriad(1, 2, 2_000_000, 1_000_000), 10000);
    assert_eq!(progress_permyriad(1, 2, -7, 1_000_000), 5000);
    assert_eq!(progress_permyriad(1, 4, 123, 0), 2500);
    assert_eq!(progress_permyriad(0, 0, 1, 3), 3333);
}

#[test]
fn six_decimal_seconds() {
    assert_eq!(seconds6(0), "0.000000");
    assert_eq!(seconds6(7), "0.007000");
    assert_eq!(seconds6(61005), "61.005000");
}

#[test]
fn centre_filter_by_lower_case_layout() {
    assert_eq!(centre_filter("5.1(side)"), "pan=mono|c0=FC");
    assert_eq!(centre_filter("7.1"), "pan=mono|c0=FC");
    assert_eq!(centre_filter("6.1"), "pan=mono|c0=FC");
    assert_eq!(centre_filter("stereo"), "aformat=channel_layouts=mono");
    assert_eq!(centre_filter(""), "aformat=channel_layouts=mono");
}

#[test]
fn shown_commands_match_the_planned_steps() {
    let r = request();
    let steps = plan(&r);
    let shown = describe_plan(&r, "ffmpeg");
    assert_eq!(shown.len(), steps.len());
    for (line, (label, args)) in shown.iter().zip(steps.iter()) {
        assert!(line.starts_with(&format!("{}\nffmpeg -hide_banner -nostdin -progress pipe:1 -nostats -i \"", label)));
        assert!(line.ends_with(args.last().unwrap().as_str()));
    }
}

#[test]
fn job_end_reports_outputs_or_the_error() {
    let ok = job_end(Ok(EncodeOutcome { outputs: vec!["out/a.flac".to_string(), "out/a.mkv".to_string()] }));
    assert_eq!(ok.stage, "done");
    assert_eq!(ok.percent, 100);
    assert_eq!(ok.message, "全部输出完成");
    assert!(!ok.failed);
    assert_eq!(ok.outputs, vec!["out/a.flac".to_string(), "out/a.mkv".to_string()]);
    let err = job_end(Err("已取消".to_string()));
    assert_eq!(err.stage, "error");
    assert_eq!(err.percent, 0);
    assert_eq!(err.message, "已取消");
    assert!(err.failed);
    assert!(err.outputs.is_empty());
}
