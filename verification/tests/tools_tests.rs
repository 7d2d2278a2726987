use tj_videoprep::mpvdl::{
    download_page, is_wanted_asset, latest_mpv_asset, latest_mpv_asset_from_text, listing_step,
    within_search_depth, ListedEntry, ListingStep,
};
use tj_videoprep::json::JsonValue;
use tj_videoprep::player::{mpv_play_args, seconds3};
use tj_videoprep::tools::{
    capture_failure_message, exe_name, ffmpeg_candidates, first_existing, mpv_offer,
    mpv_offer_paths, mpv_search_paths, mpv_version, settings_path, Settings,
};

fn v(items: &[&str]) -> Vec<String> {
    items.iter().map(|s| s.to_string()).collect()
}

#[test]
fn settings_defaults_fill_unset_values() {
    let s = Settings::default().with_defaults();
    assert_eq!(s.preview_height, 720);
    assert_eq!(s.preview_crf, 30);
    assert_eq!(s.high_crf, 18);
    assert_eq!(s.audio_codec, "flac");
    assert_eq!(s.audio_mode, "stereo");
    assert_eq!(s.audio_bitrate, "320k");
    assert_eq!(s.ffmpeg_path, "");
    let mut t = Settings::default();
    t.preview_height = 1080;
    t.audio_codec = "mp3".to_string();
    t.mpv_path = "C:/mpv/mpv.exe".to_string();
    let t = t.with_defaults();
    assert_eq!(t.preview_height, 1080);
    assert_eq!(t.audio_codec, "mp3");
    assert_eq!(t.mpv_path, "C:/mpv/mpv.exe");
    assert_eq!(t.preview_crf, 30);
}

#[test]
fn settings_file_beside_program() {
    assert_eq!(settings_path("/opt/app"), "/opt/app/TJ-VideoPrep.settings.json");
    assert_eq!(settings_path("/opt/app/"), "/opt/app/TJ-VideoPrep.settings.json");
    assert_eq!(settings_path(""), "TJ-VideoPrep.settings.json");
}

#[test]
fn mpv_version_first_line_trimmed() {
    assert_eq!(
        mpv_version(Ok("  mpv v0.36.0 Copyright\r\nbuilt on x\n".to_string())),
        Some("mpv v0.36.0 Copyright".to_string())
    );
    assert_eq!(mpv_version(Ok(String::new())), None);
    assert_eq!(mpv_version(Ok("\n".to_string())), Some(String::new()));
    assert_eq!(mpv_version(Err("no mpv".to_string())), None);
}

#[test]
fn failure_message_of_a_program() {
    assert_eq!(
        capture_failure_message("ffprobe", Some(1), "  bad file\n"),
        "ffprobe 退出码 Some(1): bad file"
    );
    assert_eq!(capture_failure_message("x", None, ""), "x 退出码 None: ");
}

#[test]
fn executable_names() {
    assert_eq!(exe_name("ffmpeg", true), "ffmpeg.exe");
    assert_eq!(exe_name("ffmpeg", false), "ffmpeg");
}

#[test]
fn first_existing_candidate() {
    let c = v(&["a", "b", "c"]);
    assert_eq!(first_existing(&c, &vec![false, true, true]), Some("b".to_string()));
    assert_eq!(first_existing(&c, &vec![false, false]), None);
    assert_eq!(first_existing(&c, &vec![]), None);
}

#[test]
fn ffmpeg_search_order() {
    let c = ffmpeg_candidates(
        "ffprobe",
        "  /usr/local/bin/ffprobe ",
        "/app",
        &v(&["/usr/bin", "/bin"]),
        &Some("/lad".to_string()),
        &Some("/pf".to_string()),
        false,
    );
    assert_eq!(
        c,
        v(&[
            "/usr/local/bin/ffprobe",
            "/app/vendor/ffmpeg/ffprobe",
            "/app/ffprobe",
            "/usr/bin/ffprobe",
            "/bin/ffprobe",
            "/lad/Microsoft/WinGet/Links/ffprobe",
            "/pf/ffmpeg/bin/ffprobe",
        ])
    );
    let c2 = ffmpeg_candidates("ffmpeg", "   ", "/app", &Vec::new(), &None, &None, true);
    assert_eq!(c2, v(&["/app/vendor/ffmpeg/ffmpeg.exe", "/app/ffmpeg.exe"]));
}

#[test]
fn mpv_search_order() {
    let c = mpv_search_paths("", "/app", &v(&["/usr/bin"]), &Some("/lad".to_string()), &Some("/pf".to_string()), false);
    assert_eq!(
        c,
        v(&[
            "/app/vendor/mpv/mpv",
            "/app/vendor/mpv/mpv/mpv",
            "/app/mpv",
            "/usr/bin/mpv",
            "/pf/mpv/mpv",
            "/lad/Programs/mpv/mpv",
            "/pf/mpv.net/mpv",
        ])
    );
    let c2 = mpv_search_paths("my mpv", "/app", &Vec::new(), &None, &None, true);
    assert_eq!(c2, v(&["my mpv", "/app/vendor/mpv/mpv.exe", "/app/vendor/mpv/mpv/mpv.exe", "/app/mpv.exe"]));
}

#[test]
fn mpv_offer_sorted_and_unique() {
    let p = mpv_offer_paths("/app", &Some("/pf".to_string()), true);
    assert_eq!(p, v(&["/app/vendor/mpv/mpv.exe", "/app/vendor/mpv/mpv/mpv.exe", "/pf/mpv/mpv.exe", "/pf/mpv.net/mpv.exe"]));
    assert_eq!(mpv_offer_paths("/app", &None, false).len(), 2);
    let found = v(&["/z/mpv", "/a/mpv", "/z/mpv", "/B/mpv", "/a/mpv"]);
    assert_eq!(mpv_offer(&found), v(&["/B/mpv", "/a/mpv", "/z/mpv"]));
    assert_eq!(mpv_offer(&Vec::new()), Vec::<String>::new());
}

fn asset(name: &str, url: &str) -> JsonValue {
    JsonValue::Object(vec![
        ("name".to_string(), JsonValue::Str(name.to_string())),
        ("browser_download_url".to_string(), JsonValue::Str(url.to_string())),
    ])
}

#[test]
fn mpv_asset_choice() {
    let rel = JsonValue::Object(vec![(
        "assets".to_string(),
        JsonValue::Array(vec![
            asset("mpv-dev-x86_64-20240101.7z", "u0"),
            asset("mpv-x86_64-v3-20240101.7z", "u1"),
            asset("mpv-aarch64-20240101.7z", "u2"),
            asset("mpv-debug-x86_64-20240101.7z", "u3"),
            asset("ffmpeg-x86_64.7z", "u4"),
            asset("mpv-x86_64-20240101.zip", "u5"),
            asset("mpv-x86_64-20240101-git-abc.7z", "u6"),
            asset("mpv-x86_64-20240102.7z", "u7"),
        ]),
    )]);
    assert_eq!(
        latest_mpv_asset(&rel),
        Ok(("mpv-x86_64-20240101-git-abc.7z".to_string(), "u6".to_string()))
    );
    let empty = JsonValue::Object(vec![]);
    assert_eq!(latest_mpv_asset(&empty), Err("未在最新发布中找到 x86_64 的 mpv 包".to_string()));
    assert!(is_wanted_asset("mpv-x86_64-20240101.7z"));
    assert!(!is_wanted_asset("mpv-i686-20240101.7z"));
    assert_eq!(download_page(), "https://github.com/zhongfly/mpv-winbuild/releases/latest");
}

#[test]
fn mpv_listening_arguments() {
    assert_eq!(
        mpv_play_args("C:/v.mkv", 2, 12345),
        v(&["C:/v.mkv", "--aid=3", "--start=12.345", "--force-window=yes", "--keep-open=yes", "--osc=yes", "--title=TJ-VideoPrep 试听 - 音轨 2"])
    );
    assert_eq!(mpv_play_args("v", 0, -5)[2], "--start=0.000");
    assert_eq!(seconds3(1001), "1.001");
}

#[test]
fn mpv_asset_from_listing_text() {
    let text = r#"{"tag_name": "2024", "assets": [
        {"name": "mpv-aarch64-2024.7z", "browser_download_url": "https://x/a"},
        {"name": "mpv-x86_64-2024.7z", "browser_download_url": "https://x/b"}
    ]}"#;
    assert_eq!(
        latest_mpv_asset_from_text(text),
        Ok(("mpv-x86_64-2024.7z".to_string(), "https://x/b".to_string()))
    );
    assert_eq!(
        latest_mpv_asset_from_text(r#"{"assets": []}"#),
        Err("未在最新发布中找到 x86_64 的 mpv 包".to_string())
    );
    let e = latest_mpv_asset_from_text("<html>rate limited</html>").unwrap_err();
    assert!(e.starts_with("解析 GitHub 响应失败: Failed to read JSON: "));
    assert!(e.len() > "解析 GitHub 响应失败: Failed to read JSON: ".len());
}

fn entry(name: &str, is_file: bool, is_dir: bool) -> ListedEntry {
    ListedEntry { name: name.to_string(), is_file, is_dir }
}

#[test]
fn archive_search_steps() {
    let es = vec![
        entry("doc", false, true),
        entry("readme.txt", true, false),
        entry("MPV.EXE", true, false),
        entry("mpv.exe", true, false),
    ];
    assert!(matches!(listing_step(&es, "mpv.exe"), ListingStep::Found(2)));
    let es = vec![entry("a", false, true), entry("x.txt", true, false), entry("b", false, true), entry("sock", false, false)];
    match listing_step(&es, "mpv.exe") {
        ListingStep::Descend(d) => assert_eq!(d, vec![0, 2]),
        ListingStep::Found(_) => panic!("no file matches"),
    }
    assert!(within_search_depth(0));
    assert!(within_search_depth(4));
    assert!(!within_search_depth(5));
}
