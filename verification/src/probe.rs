//! Stream analysis of ffprobe's JSON report: audio track list with
//! recommendations, the main video stream, and the start offset of the first
//! audio track against the video (the basis of timeline alignment).
//!
//! Start times are held as whole nanoseconds and durations as whole
//! microseconds (ffprobe writes seconds with six decimals).

use crate::json::{array_field, get, json_get, json_parse_of, parse_json, array_of, int_field, int_of, seconds_field, seconds_of, str_field, str_of, u64_field, u64_of, JsonValue};
use crate::paths::{
    after_last_slash, double_sep_start, ends_in_backslash_name, ends_in_name, file_name_of, plain_name,
};
use crate::text::{is_empty_text, same_text, parse_i64, parse_i64_spec, contains, has_sub, i64_text, int_text, joined, join, lowercase_of, to_lowercase};
use vstd::prelude::*;

verus! {

/// One audio stream of the file.
#[derive(Clone, Debug)]
pub struct AudioTrack {
    /// ffprobe's global stream index.
    pub stream_index: i64,
    /// Position among the audio streams (from 0), as in ffmpeg's `-map 0:a:N`.
    pub ordinal: i64,
    pub codec: String,
    pub language: String,
    pub title: String,
    pub channels: i64,
    pub channel_layout: String,
    pub sample_rate: String,
    pub bit_rate: String,
    /// Start time, in nanoseconds.
    pub start_time_ns: i64,
    pub is_default: bool,
    /// `primary`, `alternate` or `commentary`.
    pub recommendation: String,
    pub note: String,
}

/// The main video stream.
#[derive(Clone, Debug)]
pub struct VideoInfo {
    pub stream_index: i64,
    pub codec: String,
    pub width: i64,
    pub height: i64,
    pub r_frame_rate: String,
    /// Start time, in nanoseconds.
    pub start_time_ns: i64,
    pub pix_fmt: String,
    pub is_hdr: bool,
}

/// Everything the analysis reports on one file.
#[derive(Clone, Debug)]
pub struct ProbeResult {
    pub file_name: String,
    pub file_path: String,
    pub format_name: String,
    pub format_long_name: String,
    pub duration_us: i64,
    pub size_bytes: u64,
    pub video: VideoInfo,
    pub audios: Vec<AudioTrack>,
    /// Start of the first audio track minus start of the video, in
    /// milliseconds; positive when the audio starts later.
    pub delay_ms: i64,
    pub align_note: String,
    pub raw_summary: String,
}

pub struct AudioTrackView {
    pub stream_index: int,
    pub ordinal: int,
    pub codec: Seq<char>,
    pub language: Seq<char>,
    pub title: Seq<char>,
    pub channels: int,
    pub channel_layout: Seq<char>,
    pub sample_rate: Seq<char>,
    pub bit_rate: Seq<char>,
    pub start_time_ns: int,
    pub is_default: bool,
    pub recommendation: Seq<char>,
    pub note: Seq<char>,
}

pub struct VideoInfoView {
    pub stream_index: int,
    pub codec: Seq<char>,
    pub width: int,
    pub height: int,
    pub r_frame_rate: Seq<char>,
    pub start_time_ns: int,
    pub pix_fmt: Seq<char>,
    pub is_hdr: bool,
}

pub struct ProbeView {
    pub file_name: Seq<char>,
    pub file_path: Seq<char>,
    pub format_name: Seq<char>,
    pub format_long_name: Seq<char>,
    pub duration_us: int,
    pub size_bytes: int,
    pub video: VideoInfoView,
    pub audios: Seq<AudioTrackView>,
    pub delay_ms: int,
    pub align_note: Seq<char>,
    pub raw_summary: Seq<char>,
}

impl View for AudioTrack {
    type V = AudioTrackView;

    open spec fn view(&self) -> AudioTrackView {
        AudioTrackView {
            stream_index: self.stream_index as int,
            ordinal: self.ordinal as int,
            codec: self.codec@,
            language: self.language@,
            title: self.title@,
            channels: self.channels as int,
            channel_layout: self.channel_layout@,
            sample_rate: self.sample_rate@,
            bit_rate: self.bit_rate@,
            start_time_ns: self.start_time_ns as int,
            is_default: self.is_default,
            recommendation: self.recommendation@,
            note: self.note@,
        }
    }
}

impl View for VideoInfo {
    type V = VideoInfoView;

    open spec fn view(&self) -> VideoInfoView {
        VideoInfoView {
            stream_index: self.stream_index as int,
            codec: self.codec@,
            width: self.width as int,
            height: self.height as int,
            r_frame_rate: self.r_frame_rate@,
            start_time_ns: self.start_time_ns as int,
            pix_fmt: self.pix_fmt@,
            is_hdr: self.is_hdr,
        }
    }
}

impl View for ProbeResult {
    type V = ProbeView;

    open spec fn view(&self) -> ProbeView {
        ProbeView {
            file_name: self.file_name@,
            file_path: self.file_path@,
            format_name: self.format_name@,
            format_long_name: self.format_long_name@,
            duration_us: self.duration_us as int,
            size_bytes: self.size_bytes as int,
            video: self.video@,
            audios: self.audios@.map_values(|t: AudioTrack| t@),
            delay_ms: self.delay_ms as int,
            align_note: self.align_note@,
            raw_summary: self.raw_summary@,
        }
    }
}

/// The recommendation and its note, from the lower-cased title and language.
pub open spec fn recommendation_spec(
    title_l: Seq<char>,
    lang_l: Seq<char>,
    is_default: bool,
    total: int,
) -> (Seq<char>, Seq<char>) {
    let looks_commentary = has_sub(title_l, "commentary"@) || has_sub(title_l, "comment"@)
        || has_sub(title_l, "评论"@) || has_sub(title_l, "解説"@) || has_sub(lang_l, "comment"@);
    if looks_commentary {
        ("commentary"@, "疑似评论音轨"@)
    } else if total <= 1 {
        ("primary"@, "唯一音轨"@)
    } else if is_default {
        ("primary"@, "容器默认音轨"@)
    } else {
        ("alternate"@, "备选音轨"@)
    }
}

/// The recommendation of a track among `total` audio tracks.
pub open spec fn track_recommendation(t: AudioTrackView, total: int) -> (Seq<char>, Seq<char>) {
    recommendation_spec(lowercase_of(t.title), lowercase_of(t.language), t.is_default, total)
}

/// Recommendation from already lower-cased title and language: a commentary
/// track is marked so; otherwise a lone track, or the container's default
/// one, is primary; every other track is an alternate.
pub fn recommendation_for(title_l: &str, lang_l: &str, is_default: bool, total: usize) -> (r: (
    String,
    String,
))
    ensures
        (r.0@, r.1@) == recommendation_spec(title_l@, lang_l@, is_default, total as int),
{
    let looks_commentary = contains(title_l, "commentary") || contains(title_l, "comment")
        || contains(title_l, "评论") || contains(title_l, "解説") || contains(lang_l, "comment");
    if looks_commentary {
        (String::from_str("commentary"), String::from_str("疑似评论音轨"))
    } else if total <= 1 {
        (String::from_str("primary"), String::from_str("唯一音轨"))
    } else if is_default {
        (String::from_str("primary"), String::from_str("容器默认音轨"))
    } else {
        (String::from_str("alternate"), String::from_str("备选音轨"))
    }
}

/// The recommendation for `track` among `total` audio tracks.
pub fn recommend(track: &AudioTrack, total: usize) -> (r: (String, String))
    ensures
        (r.0@, r.1@) == track_recommendation(track@, total as int),
{
    let title_l = to_lowercase(track.title.as_str());
    let lang_l = to_lowercase(track.language.as_str());
    recommendation_for(title_l.as_str(), lang_l.as_str(), track.is_default, total)
}

/// The channel layout name: ffprobe's own, else one derived from the channel count.
pub open spec fn layout_name_spec(st: JsonValue) -> Seq<char> {
    let l = str_field(st, "channel_layout"@);
    if l.len() > 0 {
        l
    } else {
        let c = int_field(st, "channels"@);
        if c == 1 {
            "mono"@
        } else if c == 2 {
            "stereo"@
        } else if c == 6 {
            "5.1"@
        } else if c == 8 {
            "7.1"@
        } else {
            Seq::empty()
        }
    }
}

pub fn channel_layout_name(st: &JsonValue) -> (r: String)
    ensures
        r@ == layout_name_spec(*st),
{
    let l = str_of(st, "channel_layout");
    if !is_empty_text(&l) {
        return l;
    }
    let c = int_of(st, "channels");
    if c == 1 {
        String::from_str("mono")
    } else if c == 2 {
        String::from_str("stereo")
    } else if c == 6 {
        String::from_str("5.1")
    } else if c == 8 {
        String::from_str("7.1")
    } else {
        String::new()
    }
}

/// A side data type, in lower case, that marks HDR mastering metadata.
pub open spec fn mastering_type(side_type_l: Seq<char>) -> bool {
    has_sub(side_type_l, "mastering display"@)
}

/// A pixel format, in lower case, with 10- or 12-bit samples.
pub open spec fn deep_pixels(pix_fmt_l: Seq<char>) -> bool {
    has_sub(pix_fmt_l, "10"@) || has_sub(pix_fmt_l, "12"@)
}

/// HDR: a mastering-display side data record, or a 10/12-bit pixel format.
pub open spec fn hdr_spec(st: JsonValue) -> bool {
    let side = array_field(st, "side_data_list"@);
    ||| exists|k: int|
        0 <= k < side.len() && mastering_type(
            lowercase_of(str_field(#[trigger] side[k], "side_data_type"@)),
        )
    ||| deep_pixels(lowercase_of(str_field(st, "pix_fmt"@)))
}

/// Whether a lower-case side data type marks HDR mastering metadata.
pub fn is_mastering_type(side_type_l: &str) -> (r: bool)
    ensures
        r == mastering_type(side_type_l@),
{
    contains(side_type_l, "mastering display")
}

/// Whether a lower-case pixel format has 10- or 12-bit samples.
pub fn is_deep_pixel_format(pix_fmt_l: &str) -> (r: bool)
    ensures
        r == deep_pixels(pix_fmt_l@),
{
    contains(pix_fmt_l, "10") || contains(pix_fmt_l, "12")
}

/// Whether a video stream is HDR (see `hdr_spec`).
pub fn is_hdr(st: &JsonValue) -> (r: bool)
    ensures
        r == hdr_spec(*st),
{
    let side = array_of(st, "side_data_list");
    let mut has_mastering = false;
    let mut k: usize = 0;
    while k < side.len() && !has_mastering
        invariant
            k <= side@.len(),
            side@ == array_field(*st, "side_data_list"@),
            has_mastering ==> k < side@.len() && mastering_type(
                lowercase_of(str_field(side@[k as int], "side_data_type"@)),
            ),
            forall|j: int|
                0 <= j < k ==> !mastering_type(
                    lowercase_of(str_field(#[trigger] side@[j], "side_data_type"@)),
                ),
        decreases side.len() - k + (if has_mastering { 0int } else { 1int }),
    {
        let t = to_lowercase(str_of(&side[k], "side_data_type").as_str());
        if is_mastering_type(t.as_str()) {
            has_mastering = true;
        } else {
            k += 1;
        }
    }
    let pix = to_lowercase(str_of(st, "pix_fmt").as_str());
    has_mastering || is_deep_pixel_format(pix.as_str())
}


/// The string member `key` of the stream's `tags` object, else the empty text.
pub open spec fn tag_field(st: JsonValue, key: Seq<char>) -> Seq<char> {
    match json_get(st, "tags"@) {
        Some(t) => str_field(t, key),
        None => Seq::empty(),
    }
}

/// The stream's `disposition.default` is the integer number 1.
pub open spec fn default_flag(st: JsonValue) -> bool {
    match json_get(st, "disposition"@) {
        Some(d) => match json_get(d, "default"@) {
            Some(JsonValue::Number(n)) => parse_i64_spec(n@) == Some(1int),
            _ => false,
        },
        None => false,
    }
}

/// `<kbps> kbps` for a positive bit rate in bits per second; empty otherwise.
pub open spec fn bit_rate_text(b: int) -> Seq<char> {
    if b > 0 {
        int_text(b / 1000) + " kbps"@
    } else {
        Seq::empty()
    }
}

/// The video stream as the report gives it.
pub open spec fn video_spec(st: JsonValue) -> VideoInfoView {
    VideoInfoView {
        stream_index: int_field(st, "index"@),
        codec: str_field(st, "codec_name"@),
        width: int_field(st, "width"@),
        height: int_field(st, "height"@),
        r_frame_rate: str_field(st, "r_frame_rate"@),
        start_time_ns: seconds_field(st, "start_time"@, 9),
        pix_fmt: str_field(st, "pix_fmt"@),
        is_hdr: hdr_spec(st),
    }
}

/// No video stream seen (yet).
pub open spec fn no_video() -> VideoInfoView {
    VideoInfoView {
        stream_index: 0,
        codec: Seq::empty(),
        width: 0,
        height: 0,
        r_frame_rate: Seq::empty(),
        start_time_ns: 0,
        pix_fmt: Seq::empty(),
        is_hdr: false,
    }
}

/// The audio stream `st`, the `ordinal`-th audio stream, before any recommendation.
pub open spec fn track_spec(st: JsonValue, ordinal: int) -> AudioTrackView {
    AudioTrackView {
        stream_index: int_field(st, "index"@),
        ordinal: ordinal,
        codec: str_field(st, "codec_name"@),
        language: tag_field(st, "language"@),
        title: tag_field(st, "title"@),
        channels: int_field(st, "channels"@),
        channel_layout: layout_name_spec(st),
        sample_rate: str_field(st, "sample_rate"@),
        bit_rate: bit_rate_text(int_field(st, "bit_rate"@)),
        start_time_ns: seconds_field(st, "start_time"@, 9),
        is_default: default_flag(st),
        recommendation: Seq::empty(),
        note: Seq::empty(),
    }
}

/// The summary line of one audio track: `#<index> a:<ordinal> <codec> <n>ch <language> <title>`.
pub open spec fn summary_line(t: AudioTrackView) -> Seq<char> {
    "#"@ + int_text(t.stream_index) + " a:"@ + int_text(t.ordinal) + " "@ + t.codec + " "@
        + int_text(t.channels) + "ch "@ + t.language + " "@ + t.title
}

/// The state of the walk over the stream list.
pub struct ScanView {
    pub video: VideoInfoView,
    pub audios: Seq<AudioTrackView>,
    pub lines: Seq<Seq<char>>,
}

/// One stream taken in: the first video stream with a nonzero height stays
/// (a later one replaces a zero-height one); every audio stream is listed.
pub open spec fn scan_step(acc: ScanView, st: JsonValue) -> ScanView {
    let ty = str_field(st, "codec_type"@);
    if ty == "video"@ {
        if acc.video.height != 0 {
            acc
        } else {
            ScanView { video: video_spec(st), audios: acc.audios, lines: acc.lines }
        }
    } else if ty == "audio"@ {
        let t = track_spec(st, acc.audios.len() as int);
        ScanView { video: acc.video, audios: acc.audios.push(t), lines: acc.lines.push(summary_line(t)) }
    } else {
        acc
    }
}

/// The walk over a stream list, in order.
pub open spec fn scan(streams: Seq<JsonValue>) -> ScanView
    decreases streams.len(),
{
    if streams.len() == 0 {
        ScanView { video: no_video(), audios: Seq::empty(), lines: Seq::empty() }
    } else {
        scan_step(scan(streams.drop_last()), streams.last())
    }
}

/// A track with its recommendation among `total` tracks filled in.
pub open spec fn with_recommendation_spec(t: AudioTrackView, total: int) -> AudioTrackView {
    let (rec, note) = track_recommendation(t, total);
    AudioTrackView { recommendation: rec, note: note, ..t }
}

/// The audio start minus the video start, in milliseconds, rounded half away
/// from zero.
pub open spec fn delay_spec(audio_ns: int, video_ns: int) -> int {
    let d = audio_ns - video_ns;
    if d >= 0 {
        (d + 500000) / 1000000
    } else {
        -((-d + 500000) / 1000000)
    }
}

/// The note on alignment for an offset of `raw` milliseconds: within 5 ms
/// nothing needs doing; a later audio start gets silence in front, an
/// earlier one has its head cut.
pub open spec fn align_note_spec(raw: int) -> Seq<char> {
    if -5 <= raw <= 5 {
        "音轨与视频起点一致，无需补偿"@
    } else if raw > 0 {
        "音轨比视频晚 "@ + int_text(raw) + " ms，导出音频时将在头部补静音对齐"@
    } else {
        "音轨比视频早 "@ + int_text(-raw) + " ms，导出音频时将裁掉开头对齐"@
    }
}

/// The `format` member of the report, or `null` when there is none.
pub open spec fn format_of(root: JsonValue) -> JsonValue {
    match json_get(root, "format"@) {
        Some(f) => f,
        None => JsonValue::Null,
    }
}

/// The whole analysis of a report `root` on the file at `path`, whose file
/// name is `file_name`.
pub open spec fn probe_spec(path: Seq<char>, file_name: Seq<char>, root: JsonValue) -> ProbeView {
    let fmt = format_of(root);
    let sc = scan(array_field(root, "streams"@));
    let total = sc.audios.len() as int;
    let delay = if total > 0 {
        delay_spec(sc.audios[0].start_time_ns, sc.video.start_time_ns)
    } else {
        0
    };
    ProbeView {
        file_name: file_name,
        file_path: path,
        format_name: str_field(fmt, "format_name"@),
        format_long_name: str_field(fmt, "format_long_name"@),
        duration_us: seconds_field(fmt, "duration"@, 6),
        size_bytes: u64_field(fmt, "size"@),
        video: sc.video,
        audios: sc.audios.map_values(|t: AudioTrackView| with_recommendation_spec(t, total)),
        delay_ms: delay,
        align_note: if total > 0 {
            align_note_spec(delay)
        } else {
            "未找到音频流"@
        },
        raw_summary: joined(sc.lines, "\n"@),
    }
}

/// The string member `key` of the stream's `tags` object.
pub fn tag_of(st: &JsonValue, key: &str) -> (r: String)
    ensures
        r@ == tag_field(*st, key@),
{
    match get(st, "tags") {
        Some(t) => str_of(t, key),
        None => String::new(),
    }
}

fn default_of(st: &JsonValue) -> (r: bool)
    ensures
        r == default_flag(*st),
{
    match get(st, "disposition") {
        Some(d) => match get(d, "default") {
            Some(JsonValue::Number(n)) => match parse_i64(n.as_str()) {
                Some(x) => x == 1,
                None => false,
            },
            _ => false,
        },
        None => false,
    }
}

/// The bit rate as `<kbps> kbps`, or empty when it is not positive.
pub fn bit_rate_label(b: i64) -> (r: String)
    ensures
        r@ == bit_rate_text(b as int),
{
    if b > 0 {
        let mut r = i64_text(b / 1000);
        r.append(" kbps");
        r
    } else {
        String::new()
    }
}

/// The video stream `st` as the report gives it.
pub fn video_info(st: &JsonValue) -> (r: VideoInfo)
    ensures
        r@ == video_spec(*st),
{
    VideoInfo {
        stream_index: int_of(st, "index"),
        codec: str_of(st, "codec_name"),
        width: int_of(st, "width"),
        height: int_of(st, "height"),
        r_frame_rate: str_of(st, "r_frame_rate"),
        start_time_ns: seconds_of(st, "start_time", 9),
        pix_fmt: str_of(st, "pix_fmt"),
        is_hdr: is_hdr(st),
    }
}

fn empty_video() -> (r: VideoInfo)
    ensures
        r@ == no_video(),
{
    VideoInfo {
        stream_index: 0,
        codec: String::new(),
        width: 0,
        height: 0,
        r_frame_rate: String::new(),
        start_time_ns: 0,
        pix_fmt: String::new(),
        is_hdr: false,
    }
}

/// The audio stream `st`, the `ordinal`-th one, before any recommendation.
pub fn audio_track(st: &JsonValue, ordinal: i64) -> (r: AudioTrack)
    ensures
        r@ == track_spec(*st, ordinal as int),
{
    AudioTrack {
        stream_index: int_of(st, "index"),
        ordinal: ordinal,
        codec: str_of(st, "codec_name"),
        language: tag_of(st, "language"),
        title: tag_of(st, "title"),
        channels: int_of(st, "channels"),
        channel_layout: channel_layout_name(st),
        sample_rate: str_of(st, "sample_rate"),
        bit_rate: bit_rate_label(int_of(st, "bit_rate")),
        start_time_ns: seconds_of(st, "start_time", 9),
        is_default: default_of(st),
        recommendation: String::new(),
        note: String::new(),
    }
}

/// The summary line of one audio track.
pub fn track_summary(t: &AudioTrack) -> (r: String)
    ensures
        r@ == summary_line(t@),
{
    let mut r = String::from_str("#");
    r.append(i64_text(t.stream_index).as_str());
    r.append(" a:");
    r.append(i64_text(t.ordinal).as_str());
    r.append(" ");
    r.append(t.codec.as_str());
    r.append(" ");
    r.append(i64_text(t.channels).as_str());
    r.append("ch ");
    r.append(t.language.as_str());
    r.append(" ");
    r.append(t.title.as_str());
    r
}

/// A copy of `t` with its recommendation among `total` tracks filled in.
pub fn with_recommendation(t: &AudioTrack, total: usize) -> (r: AudioTrack)
    ensures
        r@ == with_recommendation_spec(t@, total as int),
{
    let (rec, note) = recommend(t, total);
    AudioTrack {
        stream_index: t.stream_index,
        ordinal: t.ordinal,
        codec: t.codec.clone(),
        language: t.language.clone(),
        title: t.title.clone(),
        channels: t.channels,
        channel_layout: t.channel_layout.clone(),
        sample_rate: t.sample_rate.clone(),
        bit_rate: t.bit_rate.clone(),
        start_time_ns: t.start_time_ns,
        is_default: t.is_default,
        recommendation: rec,
        note: note,
    }
}

/// The audio start against the video start, in whole milliseconds (rounded
/// half away from zero).
pub fn delay_ms(audio_start_ns: i64, video_start_ns: i64) -> (r: i64)
    ensures
        r == delay_spec(audio_start_ns as int, video_start_ns as int),
{
    let d: i128 = audio_start_ns as i128 - video_start_ns as i128;
    if d >= 0 {
        ((d + 500000) / 1000000) as i64
    } else {
        (-((-d + 500000) / 1000000)) as i64
    }
}

/// The note shown for an offset of `raw` milliseconds.
pub fn align_note(raw: i64) -> (r: String)
    requires
        raw > i64::MIN,
    ensures
        r@ == align_note_spec(raw as int),
{
    if -5 <= raw && raw <= 5 {
        String::from_str("音轨与视频起点一致，无需补偿")
    } else if raw > 0 {
        let mut r = String::from_str("音轨比视频晚 ");
        r.append(i64_text(raw).as_str());
        r.append(" ms，导出音频时将在头部补静音对齐");
        r
    } else {
        let mut r = String::from_str("音轨比视频早 ");
        r.append(i64_text(-raw).as_str());
        r.append(" ms，导出音频时将裁掉开头对齐");
        r
    }
}

/// Assembles the analysis of report `root` on the file at `path`, whose
/// file name is `file_name`.
pub fn assemble_probe(path: &str, file_name: String, root: &JsonValue) -> (r: ProbeResult)
    requires
        array_field(*root, "streams"@).len() < i64::MAX,
    ensures
        r@ == probe_spec(path@, file_name@, *root),
{
    let null = JsonValue::Null;
    let fmt: &JsonValue = match get(root, "format") {
        Some(f) => f,
        None => &null,
    };
    assert(*fmt == format_of(*root));
    let streams = array_of(root, "streams");
    let ghost ss = streams@;
    let mut video = empty_video();
    let mut plain: Vec<AudioTrack> = Vec::new();
    let mut lines: Vec<String> = Vec::new();
    let mut i: usize = 0;
    assert(ss.take(0) =~= Seq::<JsonValue>::empty());
    assert(plain@.map_values(|t: AudioTrack| t@) =~= Seq::<AudioTrackView>::empty());
    assert(lines.deep_view() =~= Seq::<Seq<char>>::empty());
    while i < streams.len()
        invariant
            i <= ss.len(),
            ss == streams@,
            ss.len() < i64::MAX,
            plain@.len() <= i,
            video@ == scan(ss.take(i as int)).video,
            plain@.map_values(|t: AudioTrack| t@) == scan(ss.take(i as int)).audios,
            lines.deep_view() == scan(ss.take(i as int)).lines,
        decreases ss.len() - i,
    {
        let st = &streams[i];
        let ghost before = scan(ss.take(i as int));
        assert(ss.take(i + 1).drop_last() =~= ss.take(i as int));
        assert(ss.take(i + 1).last() == ss[i as int]);
        let ty = str_of(st, "codec_type");
        if same_text(&ty, "video") {
            if video.height == 0 {
                video = video_info(st);
            }
        } else if same_text(&ty, "audio") {
            let t = audio_track(st, plain.len() as i64);
            let line = track_summary(&t);
            lines.push(line);
            plain.push(t);
            assert(plain@.map_values(|t: AudioTrack| t@) =~= before.audios.push(
                track_spec(*st, before.audios.len() as int),
            ));
            assert(lines.deep_view() =~= before.lines.push(
                summary_line(track_spec(*st, before.audios.len() as int)),
            ));
        }
        i += 1;
    }
    assert(ss.take(ss.len() as int) =~= ss);
    let ghost sc = scan(ss);
    let total = plain.len();
    assert(sc.audios.len() == total);
    let mut audios: Vec<AudioTrack> = Vec::new();
    let mut k: usize = 0;
    while k < total
        invariant
            k <= total == plain@.len(),
            audios@.len() == k,
            sc.audios.len() == total,
            plain@.map_values(|t: AudioTrack| t@) == sc.audios,
            audios@.map_values(|t: AudioTrack| t@) == sc.audios.take(k as int).map_values(
                |t: AudioTrackView| with_recommendation_spec(t, total as int),
            ),
        decreases total - k,
    {
        let ghost prev_raw = audios@;
        let ghost prev = audios@.map_values(|t: AudioTrack| t@);
        let t = with_recommendation(&plain[k], total);
        audios.push(t);
        proof {
            assert(plain@.map_values(|t: AudioTrack| t@)[k as int] == plain@[k as int]@);
            assert(sc.audios[k as int] == plain@[k as int]@);
            let want = sc.audios.take(k + 1).map_values(
                |t: AudioTrackView| with_recommendation_spec(t, total as int),
            );
            let got = audios@.map_values(|t: AudioTrack| t@);
            assert forall|j: int| 0 <= j < k + 1 implies got[j] == want[j] by {
                if j < k {
                    assert(got[j] == audios@[j]@);
                    assert(audios@[j] == prev_raw[j]);
                    assert(prev[j] == prev_raw[j]@);
                }
            }
        }
        k += 1;
        assert(audios@.map_values(|t: AudioTrack| t@) =~= sc.audios.take(k as int).map_values(
            |t: AudioTrackView| with_recommendation_spec(t, total as int),
        ));
    }
    assert(sc.audios.take(total as int) =~= sc.audios);
    let (delay, note) = if total > 0 {
        proof {
            assert(plain@.map_values(|t: AudioTrack| t@)[0] == plain@[0]@);
        }
        let raw = delay_ms(plain[0].start_time_ns, video.start_time_ns);
        (raw, align_note(raw))
    } else {
        (0i64, String::from_str("未找到音频流"))
    };
    let r = ProbeResult {
        file_name: file_name,
        file_path: String::from_str(path),
        format_name: str_of(fmt, "format_name"),
        format_long_name: str_of(fmt, "format_long_name"),
        duration_us: seconds_of(fmt, "duration", 6),
        size_bytes: u64_of(fmt, "size"),
        video: video,
        audios: audios,
        delay_ms: delay,
        align_note: note,
        raw_summary: join(&lines, "\n"),
    };
    assert(r@.audios =~= probe_spec(path@, file_name@, *root).audios);
    r
}

/// The analysis of report `root` on the file at `path`; the file name is the
/// last component of the path.
pub fn probe(path: &str, root: &JsonValue) -> (r: ProbeResult)
    requires
        array_field(*root, "streams"@).len() < i64::MAX,
    ensures
        r@ == probe_spec(path@, r.file_name@, *root),
        plain_name(path@) ==> r.file_name@ == path@,
        forall|f: Seq<char>|
            #[trigger] ends_in_name(path@, f) && !double_sep_start(path@) ==> r.file_name@ == f,
        forall|f: Seq<char>|
            #[trigger] ends_in_backslash_name(path@, f) && !double_sep_start(path@) ==> r.file_name@
                == f || r.file_name@ == after_last_slash(path@),
{
    let name = file_name_of(path);
    assemble_probe(path, name, root)
}

/// The message of a report that cannot be used, with what went wrong.
pub open spec fn report_failure(detail: Seq<char>) -> Seq<char> {
    "ffprobe 输出解析失败: "@ + detail
}

/// The analysis of the file at `path` from the text of ffprobe's JSON
/// report: the parse error when the text is not JSON, else the analysis of
/// the parsed document (refused only for a stream count that no index
/// could hold).
pub fn probe_report(path: &str, report: &str) -> (r: Result<ProbeResult, String>)
    ensures
        match json_parse_of(report@) {
            Err(e) => r matches Err(m) && m@ == report_failure(e),
            Ok(root) => if array_field(root, "streams"@).len() < i64::MAX {
                &&& r matches Ok(p)
                &&& r->Ok_0@ == probe_spec(path@, r->Ok_0.file_name@, root)
                &&& plain_name(path@) ==> r->Ok_0.file_name@ == path@
                &&& forall|f: Seq<char>|
                    #[trigger] ends_in_name(path@, f) && !double_sep_start(path@) ==> r->Ok_0.file_name@
                        == f
                &&& forall|f: Seq<char>|
                    #[trigger] ends_in_backslash_name(path@, f) && !double_sep_start(path@)
                        ==> r->Ok_0.file_name@ == f || r->Ok_0.file_name@ == after_last_slash(path@)
            } else {
                r matches Err(m) && m@ == report_failure("too many streams"@)
            },
        },
{
    match parse_json(report) {
        Err(e) => {
            let mut m = String::from_str("ffprobe 输出解析失败: ");
            m.append(e.as_str());
            proof {
                reveal_strlit("ffprobe 输出解析失败: ");
            }
            Err(m)
        },
        Ok(root) => {
            let n = array_of(&root, "streams").len();
            if (n as u64) < (i64::MAX as u64) {
                Ok(probe(path, &root))
            } else {
                let mut m = String::from_str("ffprobe 输出解析失败: ");
                m.append("too many streams");
                Err(m)
            }
        },
    }
}

} // verus!
