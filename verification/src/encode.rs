//! The ffmpeg work plan: argument lists for each requested output, the
//! commands shown to the user, and the bookkeeping of a run (progress,
//! messages, produced files).

use crate::paths::{join_path, joined_path, relative_name, verbatim};
use crate::text::{
    has_suffix,
    contains, is_empty_text, same_text, digit_char, has_sub, i64_text, int_text, is_blank, join, joined, lowercase_of,
    nat_text, to_lowercase, to_uppercase, trimmed, u64_text, uppercase_of,
};
use vstd::prelude::*;

verus! {

/// What to produce from one source file.
#[derive(Clone, Debug)]
pub struct EncodeRequest {
    pub video: String,
    /// Which audio stream, by position among the audio streams.
    pub audio_ordinal: i64,
    pub channel_layout: String,
    pub out_dir: String,
    pub base_name: String,
    /// Length of the source in microseconds (for progress only).
    pub duration_us: i64,
    pub want_audio: bool,
    /// `flac`, `mp3` or `wav`.
    pub audio_codec: String,
    /// `native`, `stereo` or `center`.
    pub audio_mode: String,
    pub audio_bitrate: String,
    /// Offset of the audio track against the video, in milliseconds;
    /// compensated when `apply_align` is set and it exceeds 5 ms either way.
    pub delay_ms: i64,
    pub apply_align: bool,
    pub want_preview: bool,
    pub preview_height: u32,
    pub preview_crf: u32,
    pub want_high: bool,
    pub high_crf: u32,
    pub want_remux: bool,
}

pub struct EncodeRequestView {
    pub video: Seq<char>,
    pub audio_ordinal: int,
    pub channel_layout: Seq<char>,
    pub out_dir: Seq<char>,
    pub base_name: Seq<char>,
    pub duration_us: int,
    pub want_audio: bool,
    pub audio_codec: Seq<char>,
    pub audio_mode: Seq<char>,
    pub audio_bitrate: Seq<char>,
    pub delay_ms: int,
    pub apply_align: bool,
    pub want_preview: bool,
    pub preview_height: nat,
    pub preview_crf: nat,
    pub want_high: bool,
    pub high_crf: nat,
    pub want_remux: bool,
}

impl View for EncodeRequest {
    type V = EncodeRequestView;

    open spec fn view(&self) -> EncodeRequestView {
        EncodeRequestView {
            video: self.video@,
            audio_ordinal: self.audio_ordinal as int,
            channel_layout: self.channel_layout@,
            out_dir: self.out_dir@,
            base_name: self.base_name@,
            duration_us: self.duration_us as int,
            want_audio: self.want_audio,
            audio_codec: self.audio_codec@,
            audio_mode: self.audio_mode@,
            audio_bitrate: self.audio_bitrate@,
            delay_ms: self.delay_ms as int,
            apply_align: self.apply_align,
            want_preview: self.want_preview,
            preview_height: self.preview_height as nat,
            preview_crf: self.preview_crf as nat,
            want_high: self.want_high,
            high_crf: self.high_crf as nat,
            want_remux: self.want_remux,
        }
    }
}

/// The request a form starts from: FLAC stereo audio with alignment, and a
/// 720p CRF 30 preview.
pub open spec fn default_request() -> EncodeRequestView {
    EncodeRequestView {
        video: Seq::empty(),
        audio_ordinal: 0,
        channel_layout: Seq::empty(),
        out_dir: Seq::empty(),
        base_name: Seq::empty(),
        duration_us: 0,
        want_audio: true,
        audio_codec: "flac"@,
        audio_mode: "stereo"@,
        audio_bitrate: "320k"@,
        delay_ms: 0,
        apply_align: true,
        want_preview: true,
        preview_height: 720,
        preview_crf: 30,
        want_high: false,
        high_crf: 18,
        want_remux: false,
    }
}

impl Default for EncodeRequest {
    fn default() -> (r: Self)
        ensures
            r@ == default_request(),
    {
        EncodeRequest {
            video: String::new(),
            audio_ordinal: 0,
            channel_layout: String::new(),
            out_dir: String::new(),
            base_name: String::new(),
            duration_us: 0,
            want_audio: true,
            audio_codec: String::from_str("flac"),
            audio_mode: String::from_str("stereo"),
            audio_bitrate: String::from_str("320k"),
            delay_ms: 0,
            apply_align: true,
            want_preview: true,
            preview_height: 720,
            preview_crf: 30,
            want_high: false,
            high_crf: 18,
            want_remux: false,
        }
    }
}

/// `ms` milliseconds written as seconds with six decimals (`{:.6}`).
pub open spec fn seconds6_text(ms: nat) -> Seq<char> {
    let f = ms % 1000;
    nat_text(ms / 1000) + seq![
        '.',
        digit_char((f / 100) as int),
        digit_char(((f / 10) % 10) as int),
        digit_char((f % 10) as int),
        '0',
        '0',
        '0',
    ]
}

/// An offset within this many milliseconds either way needs no compensation.
pub open spec fn align_tolerance_ms() -> int {
    5
}

/// The filter that keeps the centre channel, for a channel layout written in
/// lower case: the front-centre channel of a 5.1, 7.1 or six-channel layout,
/// else a mono downmix.
pub open spec fn centre_filter_for(layout_l: Seq<char>) -> Seq<char> {
    if has_sub(layout_l, "5.1"@) || has_sub(layout_l, "7.1"@) || has_sub(layout_l, "6"@) {
        "pan=mono|c0=FC"@
    } else {
        "aformat=channel_layouts=mono"@
    }
}

/// The centre-channel filter for a lower-case channel layout.
pub fn centre_filter(layout_l: &str) -> (r: String)
    ensures
        r@ == centre_filter_for(layout_l@),
{
    if contains(layout_l, "5.1") || contains(layout_l, "7.1") || contains(layout_l, "6") {
        String::from_str("pan=mono|c0=FC")
    } else {
        String::from_str("aformat=channel_layouts=mono")
    }
}

/// The parts of the audio filter chain: first the alignment (silence in
/// front for an audio start more than 5 ms later than the video's, a cut
/// head for one more than 5 ms earlier), then the centre-channel extraction.
pub open spec fn filter_parts(r: EncodeRequestView) -> Seq<Seq<char>> {
    let align: Seq<Seq<char>> = if r.apply_align && r.delay_ms > align_tolerance_ms() {
        seq!["adelay="@ + int_text(r.delay_ms) + ":all=1"@]
    } else if r.apply_align && r.delay_ms < -align_tolerance_ms() {
        seq!["atrim=start="@ + seconds6_text((-r.delay_ms) as nat) + ",asetpts=PTS-STARTPTS"@]
    } else {
        Seq::empty()
    };
    let center: Seq<Seq<char>> = if r.audio_mode == "center"@ {
        seq![centre_filter_for(lowercase_of(r.channel_layout))]
    } else {
        Seq::empty()
    };
    align + center
}

/// The audio filter chain, its parts joined by commas.
pub open spec fn filter_chain_spec(r: EncodeRequestView) -> Seq<char> {
    joined(filter_parts(r), ","@)
}

/// `ms` milliseconds as seconds with six decimals.
pub fn seconds6(ms: u64) -> (r: String)
    ensures
        r@ == seconds6_text(ms as nat),
{
    let mut r = u64_text(ms / 1000);
    let f = ms % 1000;
    let mut v: Vec<char> = Vec::new();
    v.push('.');
    v.push((((f / 100) as u8) + 48u8) as char);
    v.push(((((f / 10) % 10) as u8) + 48u8) as char);
    v.push((((f % 10) as u8) + 48u8) as char);
    v.push('0');
    v.push('0');
    v.push('0');
    let tail = crate::text::string_of(v.as_slice());
    r.append(tail.as_str());
    assert(tail@ =~= seq![
        '.',
        digit_char((f / 100) as int),
        digit_char(((f / 10) % 10) as int),
        digit_char((f % 10) as int),
        '0',
        '0',
        '0',
    ]);
    r
}

/// The audio filter chain of a request (empty when no filter is needed).
pub fn audio_filter_chain(req: &EncodeRequest) -> (r: String)
    ensures
        r@ == filter_chain_spec(req@),
{
    let mut parts: Vec<String> = Vec::new();
    if req.apply_align {
        if req.delay_ms > 5 {
            let mut p = String::from_str("adelay=");
            p.append(i64_text(req.delay_ms).as_str());
            p.append(":all=1");
            parts.push(p);
        } else if req.delay_ms < -5 {
            let mag: u64 = ((-(req.delay_ms + 1)) as u64) + 1;
            let mut p = String::from_str("atrim=start=");
            p.append(seconds6(mag).as_str());
            p.append(",asetpts=PTS-STARTPTS");
            parts.push(p);
        }
    }
    if same_text(&req.audio_mode, "center") {
        let layout = to_lowercase(req.channel_layout.as_str());
        parts.push(centre_filter(layout.as_str()));
    }
    assert(parts.deep_view() =~= filter_parts(req@));
    join(&parts, ",")
}

/// The codec options of the audio output.
pub open spec fn codec_args(r: EncodeRequestView) -> Seq<Seq<char>> {
    if r.audio_codec == "mp3"@ {
        seq!["-c:a"@, "libmp3lame"@, "-b:a"@, r.audio_bitrate, "-ar"@, "44100"@]
    } else if r.audio_codec == "wav"@ {
        seq!["-c:a"@, "pcm_s16le"@]
    } else {
        seq!["-c:a"@, "flac"@, "-compression_level"@, "8"@]
    }
}

/// The ffmpeg options that write the chosen audio stream to `out`.
pub open spec fn audio_args_spec(r: EncodeRequestView, out: Seq<char>) -> Seq<Seq<char>> {
    let ordinal = if r.audio_ordinal > 0 {
        r.audio_ordinal
    } else {
        0
    };
    let chain = filter_chain_spec(r);
    seq!["-map"@, "0:a:"@ + int_text(ordinal), "-vn"@, "-sn"@, "-dn"@] + (if chain.len() > 0 {
        seq!["-af"@, chain]
    } else {
        Seq::empty()
    }) + (if r.audio_mode == "stereo"@ {
        seq!["-ac"@, "2"@]
    } else {
        Seq::empty()
    }) + codec_args(r) + seq!["-y"@, out]
}

fn push_str(v: &mut Vec<String>, s: &str)
    ensures
        final(v).deep_view() == old(v).deep_view().push(s@),
{
    v.push(String::from_str(s));
    assert(final(v).deep_view() =~= old(v).deep_view().push(s@));
}

fn push_string(v: &mut Vec<String>, s: String)
    ensures
        final(v).deep_view() == old(v).deep_view().push(s@),
{
    v.push(s);
    assert(final(v).deep_view() =~= old(v).deep_view().push(s@));
}

/// The ffmpeg options that write the chosen audio stream to `out`.
pub fn audio_args(req: &EncodeRequest, out: &str) -> (r: Vec<String>)
    ensures
        r.deep_view() == audio_args_spec(req@, out@),
{
    let mut a: Vec<String> = Vec::new();
    push_str(&mut a, "-map");
    let ordinal = if req.audio_ordinal > 0 {
        req.audio_ordinal
    } else {
        0
    };
    let mut m = String::from_str("0:a:");
    m.append(i64_text(ordinal).as_str());
    push_string(&mut a, m);
    push_str(&mut a, "-vn");
    push_str(&mut a, "-sn");
    push_str(&mut a, "-dn");
    let chain = audio_filter_chain(req);
    if !is_empty_text(&chain) {
        push_str(&mut a, "-af");
        push_string(&mut a, chain);
    }
    if same_text(&req.audio_mode, "stereo") {
        push_str(&mut a, "-ac");
        push_str(&mut a, "2");
    }
    if same_text(&req.audio_codec, "mp3") {
        push_str(&mut a, "-c:a");
        push_str(&mut a, "libmp3lame");
        push_str(&mut a, "-b:a");
        push_string(&mut a, req.audio_bitrate.clone());
        push_str(&mut a, "-ar");
        push_str(&mut a, "44100");
    } else if same_text(&req.audio_codec, "wav") {
        push_str(&mut a, "-c:a");
        push_str(&mut a, "pcm_s16le");
    } else {
        push_str(&mut a, "-c:a");
        push_str(&mut a, "flac");
        push_str(&mut a, "-compression_level");
        push_str(&mut a, "8");
    }
    push_str(&mut a, "-y");
    push_str(&mut a, out);
    assert(a.deep_view() =~= audio_args_spec(req@, out@));
    a
}

/// The ffmpeg options of the preview video: scaled to the requested height
/// (at least 144), H.264 at the requested CRF (at least 1), a keyframe every
/// 24 frames, no audio, index in front.
pub open spec fn preview_args_spec(r: EncodeRequestView, out: Seq<char>) -> Seq<Seq<char>> {
    let h = if r.preview_height > 144 {
        r.preview_height
    } else {
        144
    };
    let crf = if r.preview_crf > 1 {
        r.preview_crf
    } else {
        1
    };
    seq![
        "-map"@,
        "0:v:0"@,
        "-vf"@,
        "scale=-2:"@ + nat_text(h),
        "-c:v"@,
        "libx264"@,
        "-preset"@,
        "veryfast"@,
        "-crf"@,
        nat_text(crf),
        "-g"@,
        "24"@,
        "-pix_fmt"@,
        "yuv420p"@,
        "-an"@,
        "-sn"@,
        "-dn"@,
        "-movflags"@,
        "+faststart"@,
        "-y"@,
        out,
    ]
}

/// The ffmpeg options of the preview video written to `out`.
pub fn video_preview_args(req: &EncodeRequest, out: &str) -> (r: Vec<String>)
    ensures
        r.deep_view() == preview_args_spec(req@, out@),
{
    let h: u32 = if req.preview_height > 144 {
        req.preview_height
    } else {
        144
    };
    let crf: u32 = if req.preview_crf > 1 {
        req.preview_crf
    } else {
        1
    };
    let mut a: Vec<String> = Vec::new();
    push_str(&mut a, "-map");
    push_str(&mut a, "0:v:0");
    push_str(&mut a, "-vf");
    let mut sc = String::from_str("scale=-2:");
    sc.append(u64_text(h as u64).as_str());
    push_string(&mut a, sc);
    push_str(&mut a, "-c:v");
    push_str(&mut a, "libx264");
    push_str(&mut a, "-preset");
    push_str(&mut a, "veryfast");
    push_str(&mut a, "-crf");
    push_string(&mut a, u64_text(crf as u64));
    push_str(&mut a, "-g");
    push_str(&mut a, "24");
    push_str(&mut a, "-pix_fmt");
    push_str(&mut a, "yuv420p");
    push_str(&mut a, "-an");
    push_str(&mut a, "-sn");
    push_str(&mut a, "-dn");
    push_str(&mut a, "-movflags");
    push_str(&mut a, "+faststart");
    push_str(&mut a, "-y");
    push_str(&mut a, out);
    assert(a.deep_view() =~= preview_args_spec(req@, out@));
    a
}

/// The ffmpeg options of the full-resolution video: H.264 at the requested
/// CRF (at least 1), no audio, index in front.
pub open spec fn high_args_spec(r: EncodeRequestView, out: Seq<char>) -> Seq<Seq<char>> {
    let crf = if r.high_crf > 1 {
        r.high_crf
    } else {
        1
    };
    seq![
        "-map"@,
        "0:v:0"@,
        "-c:v"@,
        "libx264"@,
        "-preset"@,
        "medium"@,
        "-crf"@,
        nat_text(crf),
        "-pix_fmt"@,
        "yuv420p"@,
        "-an"@,
        "-sn"@,
        "-dn"@,
        "-movflags"@,
        "+faststart"@,
        "-y"@,
        out,
    ]
}

/// The ffmpeg options of the full-resolution video written to `out`.
pub fn video_high_args(req: &EncodeRequest, out: &str) -> (r: Vec<String>)
    ensures
        r.deep_view() == high_args_spec(req@, out@),
{
    let crf: u32 = if req.high_crf > 1 {
        req.high_crf
    } else {
        1
    };
    let mut a: Vec<String> = Vec::new();
    push_str(&mut a, "-map");
    push_str(&mut a, "0:v:0");
    push_str(&mut a, "-c:v");
    push_str(&mut a, "libx264");
    push_str(&mut a, "-preset");
    push_str(&mut a, "medium");
    push_str(&mut a, "-crf");
    push_string(&mut a, u64_text(crf as u64));
    push_str(&mut a, "-pix_fmt");
    push_str(&mut a, "yuv420p");
    push_str(&mut a, "-an");
    push_str(&mut a, "-sn");
    push_str(&mut a, "-dn");
    push_str(&mut a, "-movflags");
    push_str(&mut a, "+faststart");
    push_str(&mut a, "-y");
    push_str(&mut a, out);
    assert(a.deep_view() =~= high_args_spec(req@, out@));
    a
}

/// The ffmpeg options that copy every stream, with the metadata, to `out`.
pub open spec fn remux_args_spec(out: Seq<char>) -> Seq<Seq<char>> {
    seq!["-map"@, "0"@, "-c"@, "copy"@, "-map_metadata"@, "0"@, "-y"@, out]
}

/// The ffmpeg options of the lossless re-wrap written to `out`.
pub fn remux_args(out: &str) -> (r: Vec<String>)
    ensures
        r.deep_view() == remux_args_spec(out@),
{
    let mut a: Vec<String> = Vec::new();
    push_str(&mut a, "-map");
    push_str(&mut a, "0");
    push_str(&mut a, "-c");
    push_str(&mut a, "copy");
    push_str(&mut a, "-map_metadata");
    push_str(&mut a, "0");
    push_str(&mut a, "-y");
    push_str(&mut a, out);
    assert(a.deep_view() =~= remux_args_spec(out@));
    a
}


/// The outputs a request can ask for.
#[derive(Clone, Copy, Debug)]
pub enum OutputKind {
    Audio,
    Preview,
    High,
    Remux,
}

/// The requested outputs, in the order they are produced: audio, preview,
/// full-resolution video, re-wrap.
pub open spec fn wanted_outputs(r: EncodeRequestView) -> Seq<OutputKind> {
    (if r.want_audio {
        seq![OutputKind::Audio]
    } else {
        Seq::empty()
    }) + (if r.want_preview {
        seq![OutputKind::Preview]
    } else {
        Seq::empty()
    }) + (if r.want_high {
        seq![OutputKind::High]
    } else {
        Seq::empty()
    }) + (if r.want_remux {
        seq![OutputKind::Remux]
    } else {
        Seq::empty()
    })
}

/// The stem of every output file name: the given base name, or `output`
/// when it is blank.
pub open spec fn base_of(r: EncodeRequestView) -> Seq<char> {
    if trimmed(r.base_name).len() == 0 {
        "output"@
    } else {
        r.base_name
    }
}

/// The extension of the audio file: `mp3`, `wav`, else `flac`.
pub open spec fn audio_ext(r: EncodeRequestView) -> Seq<char> {
    if r.audio_codec == "mp3"@ {
        "mp3"@
    } else if r.audio_codec == "wav"@ {
        "wav"@
    } else {
        "flac"@
    }
}

/// The file name of an output.
pub open spec fn output_file(r: EncodeRequestView, k: OutputKind) -> Seq<char> {
    match k {
        OutputKind::Audio => base_of(r) + ".audio."@ + audio_ext(r),
        OutputKind::Preview => base_of(r) + ".preview."@ + nat_text(r.preview_height) + "p.mp4"@,
        OutputKind::High => base_of(r) + ".high.mp4"@,
        OutputKind::Remux => base_of(r) + ".remux.mkv"@,
    }
}

/// The label shown for an output's step.
pub open spec fn step_label(r: EncodeRequestView, k: OutputKind) -> Seq<char> {
    match k {
        OutputKind::Audio => "音频（"@ + uppercase_of(r.audio_codec) + " / "@ + r.audio_mode + "）"@,
        OutputKind::Preview => "视频预览（"@ + nat_text(r.preview_height) + "p / CRF "@ + nat_text(
            r.preview_crf,
        ) + "）"@,
        OutputKind::High => "视频高质量（原分辨率 / CRF "@ + nat_text(r.high_crf) + "）"@,
        OutputKind::Remux => "原样封装（无损 / -c copy）"@,
    }
}

/// The ffmpeg options of an output written to `out`.
pub open spec fn step_args(r: EncodeRequestView, k: OutputKind, out: Seq<char>) -> Seq<Seq<char>> {
    match k {
        OutputKind::Audio => audio_args_spec(r, out),
        OutputKind::Preview => preview_args_spec(r, out),
        OutputKind::High => high_args_spec(r, out),
        OutputKind::Remux => remux_args_spec(out),
    }
}

/// `step` is the step of output `k`: its label, and its options ending in an
/// output path that is the output directory joined with the file name (and,
/// whatever the file name, a path that ends with it).
pub open spec fn step_fits(
    r: EncodeRequestView,
    k: OutputKind,
    step: (Seq<char>, Seq<Seq<char>>),
) -> bool {
    let out = step.1.last();
    &&& step.1.len() > 0
    &&& step.0 == step_label(r, k)
    &&& step.1 == step_args(r, k, out)
    &&& !verbatim(r.out_dir) ==> has_suffix(out, output_file(r, k))
    &&& relative_name(output_file(r, k)) && !verbatim(r.out_dir) ==> joined_path(
        r.out_dir,
        output_file(r, k),
        out,
    )
}

/// `steps` are the steps of the requested outputs, in order.
pub open spec fn plan_fits(r: EncodeRequestView, steps: Seq<(Seq<char>, Seq<Seq<char>>)>) -> bool {
    &&& steps.len() == wanted_outputs(r).len()
    &&& forall|i: int| 0 <= i < steps.len() ==> step_fits(r, wanted_outputs(r)[i], #[trigger] steps[i])
}

fn base_name_of(req: &EncodeRequest) -> (r: String)
    ensures
        r@ == base_of(req@),
{
    if is_blank(req.base_name.as_str()) {
        String::from_str("output")
    } else {
        req.base_name.clone()
    }
}

/// The step of one output: its label and its ffmpeg options.
pub fn output_step(req: &EncodeRequest, k: OutputKind) -> (r: (String, Vec<String>))
    ensures
        step_fits(req@, k, r.deep_view()),
{
    let base = base_name_of(req);
    let mut file = base.clone();
    match k {
        OutputKind::Audio => {
            file.append(".audio.");
            if same_text(&req.audio_codec, "mp3") {
                file.append("mp3");
            } else if same_text(&req.audio_codec, "wav") {
                file.append("wav");
            } else {
                file.append("flac");
            }
            let out = join_path(req.out_dir.as_str(), file.as_str());
            let mut label = String::from_str("音频（");
            label.append(to_uppercase(req.audio_codec.as_str()).as_str());
            label.append(" / ");
            label.append(req.audio_mode.as_str());
            label.append("）");
            let args = audio_args(req, out.as_str());
            (label, args)
        },
        OutputKind::Preview => {
            file.append(".preview.");
            file.append(u64_text(req.preview_height as u64).as_str());
            file.append("p.mp4");
            let out = join_path(req.out_dir.as_str(), file.as_str());
            let mut label = String::from_str("视频预览（");
            label.append(u64_text(req.preview_height as u64).as_str());
            label.append("p / CRF ");
            label.append(u64_text(req.preview_crf as u64).as_str());
            label.append("）");
            let args = video_preview_args(req, out.as_str());
            (label, args)
        },
        OutputKind::High => {
            file.append(".high.mp4");
            let out = join_path(req.out_dir.as_str(), file.as_str());
            let mut label = String::from_str("视频高质量（原分辨率 / CRF ");
            label.append(u64_text(req.high_crf as u64).as_str());
            label.append("）");
            let args = video_high_args(req, out.as_str());
            (label, args)
        },
        OutputKind::Remux => {
            file.append(".remux.mkv");
            let out = join_path(req.out_dir.as_str(), file.as_str());
            let label = String::from_str("原样封装（无损 / -c copy）");
            let args = remux_args(out.as_str());
            (label, args)
        },
    }
}

/// The whole job: one step per requested output, in the order audio,
/// preview, full-resolution video, re-wrap.
pub fn plan(req: &EncodeRequest) -> (r: Vec<(String, Vec<String>)>)
    ensures
        plan_fits(req@, r.deep_view()),
{
    let mut steps: Vec<(String, Vec<String>)> = Vec::new();
    let ghost w = wanted_outputs(req@);
    if req.want_audio {
        let s = output_step(req, OutputKind::Audio);
        steps.push(s);
    }
    assert(steps.deep_view().len() == (if req.want_audio { 1int } else { 0int }));
    assert(forall|i: int| 0 <= i < steps.deep_view().len() ==> step_fits(req@, w[i], #[trigger] steps.deep_view()[i]));
    let ghost n1 = steps.deep_view().len();
    if req.want_preview {
        let ghost before = steps.deep_view();
        let s = output_step(req, OutputKind::Preview);
        steps.push(s);
        assert(steps.deep_view() =~= before.push(s.deep_view()));
        assert(w[n1 as int] == OutputKind::Preview);
    }
    assert(forall|i: int| 0 <= i < steps.deep_view().len() ==> step_fits(req@, w[i], #[trigger] steps.deep_view()[i]));
    let ghost n2 = steps.deep_view().len();
    if req.want_high {
        let ghost before = steps.deep_view();
        let s = output_step(req, OutputKind::High);
        steps.push(s);
        assert(steps.deep_view() =~= before.push(s.deep_view()));
        assert(w[n2 as int] == OutputKind::High);
    }
    assert(forall|i: int| 0 <= i < steps.deep_view().len() ==> step_fits(req@, w[i], #[trigger] steps.deep_view()[i]));
    let ghost n3 = steps.deep_view().len();
    if req.want_remux {
        let ghost before = steps.deep_view();
        let s = output_step(req, OutputKind::Remux);
        steps.push(s);
        assert(steps.deep_view() =~= before.push(s.deep_view()));
        assert(w[n3 as int] == OutputKind::Remux);
    }
    steps
}


/// An argument as the shown command writes it: in double quotes when it
/// holds a space.
pub open spec fn quoted(a: Seq<char>) -> Seq<char> {
    if has_sub(a, " "@) {
        seq!['"'] + a + seq!['"']
    } else {
        a
    }
}

/// The text shown for one step: its label, then the ffmpeg command line
/// with the source as input.
pub open spec fn describe_line(
    label: Seq<char>,
    args: Seq<Seq<char>>,
    ffmpeg: Seq<char>,
    video: Seq<char>,
) -> Seq<char> {
    label + "\n"@ + ffmpeg + " -hide_banner -nostdin -progress pipe:1 -nostats -i \""@ + video
        + "\" "@ + joined(args.map_values(|a: Seq<char>| quoted(a)), " "@)
}

/// The texts shown for a list of steps.
pub open spec fn describe_all(
    steps: Seq<(Seq<char>, Seq<Seq<char>>)>,
    ffmpeg: Seq<char>,
    video: Seq<char>,
) -> Seq<Seq<char>> {
    steps.map_values(|s: (Seq<char>, Seq<Seq<char>>)| describe_line(s.0, s.1, ffmpeg, video))
}

fn quote_arg(a: &String) -> (r: String)
    ensures
        r@ == quoted(a@),
{
    proof {
        reveal_strlit("\"");
    }
    if contains(a.as_str(), " ") {
        let mut r = String::from_str("\"");
        r.append(a.as_str());
        r.append("\"");
        r
    } else {
        a.clone()
    }
}

/// The text shown for one step.
pub fn describe_step(label: &String, args: &Vec<String>, ffmpeg: &str, video: &str) -> (r: String)
    ensures
        r@ == describe_line(label@, args.deep_view(), ffmpeg@, video@),
{
    let mut quoted_args: Vec<String> = Vec::new();
    let mut i: usize = 0;
    while i < args.len()
        invariant
            i <= args.len(),
            quoted_args@.len() == i,
            quoted_args.deep_view() == args.deep_view().take(i as int).map_values(
                |a: Seq<char>| quoted(a),
            ),
        decreases args.len() - i,
    {
        let q = quote_arg(&args[i]);
        assert(args.deep_view()[i as int] == args@[i as int]@);
        let ghost prev_raw = quoted_args@;
        let ghost prev = quoted_args.deep_view();
        quoted_args.push(q);
        proof {
            let want = args.deep_view().take(i + 1).map_values(|a: Seq<char>| quoted(a));
            let old_want = args.deep_view().take(i as int).map_values(|a: Seq<char>| quoted(a));
            assert forall|j: int| 0 <= j < i + 1 implies quoted_args.deep_view()[j] == want[j] by {
                if j < i {
                    assert(quoted_args@[j] == prev_raw[j]);
                    assert(prev[j] == old_want[j]);
                    assert(old_want[j] == quoted(args.deep_view()[j]));
                } else {
                    assert(quoted_args@[j] == q);
                }
            }
            assert(quoted_args.deep_view() =~= want);
        }
        i += 1;
        assert(quoted_args.deep_view() =~= args.deep_view().take(i as int).map_values(
            |a: Seq<char>| quoted(a),
        ));
    }
    assert(args.deep_view().take(args.len() as int) =~= args.deep_view());
    let mut r = label.clone();
    r.append("\n");
    r.append(ffmpeg);
    r.append(" -hide_banner -nostdin -progress pipe:1 -nostats -i \"");
    r.append(video);
    r.append("\" ");
    r.append(join(&quoted_args, " ").as_str());
    r
}

/// The texts shown for a list of steps.
pub fn describe_steps(steps: &Vec<(String, Vec<String>)>, ffmpeg: &str, video: &str) -> (r: Vec<
    String,
>)
    ensures
        r.deep_view() == describe_all(steps.deep_view(), ffmpeg@, video@),
{
    let mut out: Vec<String> = Vec::new();
    let mut i: usize = 0;
    while i < steps.len()
        invariant
            i <= steps.len(),
            out@.len() == i,
            out.deep_view() == describe_all(steps.deep_view().take(i as int), ffmpeg@, video@),
        decreases steps.len() - i,
    {
        let line = describe_step(&steps[i].0, &steps[i].1, ffmpeg, video);
        assert(steps.deep_view()[i as int] == (steps@[i as int].0@, steps@[i as int].1.deep_view()));
        let ghost prev_raw = out@;
        let ghost prev = out.deep_view();
        out.push(line);
        proof {
            let want = describe_all(steps.deep_view().take(i + 1), ffmpeg@, video@);
            let old_want = describe_all(steps.deep_view().take(i as int), ffmpeg@, video@);
            assert forall|j: int| 0 <= j < i + 1 implies out.deep_view()[j] == want[j] by {
                if j < i {
                    assert(out@[j] == prev_raw[j]);
                    assert(prev[j] == old_want[j]);
                    assert(steps.deep_view().take(i + 1)[j] == steps.deep_view().take(i as int)[j]);
                } else {
                    assert(out@[j] == line);
                }
            }
            assert(out.deep_view() =~= want);
        }
        i += 1;
        assert(out.deep_view() =~= describe_all(steps.deep_view().take(i as int), ffmpeg@, video@));
    }
    assert(steps.deep_view().take(steps.len() as int) =~= steps.deep_view());
    out
}

/// The commands that a request would run, one text per step, for display.
pub fn describe_plan(req: &EncodeRequest, ffmpeg: &str) -> (r: Vec<String>)
    ensures
        exists|steps: Seq<(Seq<char>, Seq<Seq<char>>)>|
            plan_fits(req@, steps) && r.deep_view() == describe_all(steps, ffmpeg@, req.video@),
{
    let steps = plan(req);
    let r = describe_steps(&steps, ffmpeg, req.video.as_str());
    assert(plan_fits(req@, steps.deep_view()));
    r
}

/// The files a finished job produced.
#[derive(Clone, Debug)]
pub struct EncodeOutcome {
    pub outputs: Vec<String>,
}

/// The output of each step (the last option of each), in order.
pub open spec fn outputs_spec(steps: Seq<(Seq<char>, Seq<Seq<char>>)>) -> Seq<Seq<char>>
    decreases steps.len(),
{
    if steps.len() == 0 {
        Seq::empty()
    } else {
        let prev = outputs_spec(steps.drop_last());
        if steps.last().1.len() > 0 {
            prev.push(steps.last().1.last())
        } else {
            prev
        }
    }
}

/// The outcome of a job whose steps all succeeded.
pub fn outcome_of(steps: &Vec<(String, Vec<String>)>) -> (r: EncodeOutcome)
    ensures
        r.outputs.deep_view() == outputs_spec(steps.deep_view()),
{
    let mut outputs: Vec<String> = Vec::new();
    let mut i: usize = 0;
    while i < steps.len()
        invariant
            i <= steps.len(),
            outputs.deep_view() == outputs_spec(steps.deep_view().take(i as int)),
        decreases steps.len() - i,
    {
        let n = steps[i].1.len();
        assert(steps.deep_view().take(i + 1).drop_last() =~= steps.deep_view().take(i as int));
        assert(steps.deep_view().take(i + 1).last() == steps.deep_view()[i as int]);
        if n > 0 {
            let last = steps[i].1[n - 1].clone();
            outputs.push(last);
            assert(outputs.deep_view() =~= outputs_spec(steps.deep_view().take(i + 1)));
        }
        i += 1;
    }
    assert(steps.deep_view().take(steps.len() as int) =~= steps.deep_view());
    EncodeOutcome { outputs }
}

/// How a job ends, as its last progress event reports it.
pub struct JobEnd {
    /// `done` or `error`.
    pub stage: String,
    /// Progress of the whole job, in percent.
    pub percent: u32,
    pub message: String,
    pub failed: bool,
    /// The files produced (none after a failure).
    pub outputs: Vec<String>,
}

/// The end of a job from its outcome: all outputs done, at 100%, or the
/// error's message, at 0%, with no outputs.
pub fn job_end(outcome: Result<EncodeOutcome, String>) -> (r: JobEnd)
    ensures
        match outcome {
            Ok(o) => {
                &&& r.stage@ == "done"@
                &&& r.percent == 100
                &&& r.message@ == "全部输出完成"@
                &&& !r.failed
                &&& r.outputs@ == o.outputs@
            },
            Err(e) => {
                &&& r.stage@ == "error"@
                &&& r.percent == 0
                &&& r.message@ == e@
                &&& r.failed
                &&& r.outputs@.len() == 0
            },
        },
{
    match outcome {
        Ok(o) => JobEnd {
            stage: String::from_str("done"),
            percent: 100,
            message: String::from_str("全部输出完成"),
            failed: false,
            outputs: o.outputs,
        },
        Err(e) => JobEnd {
            stage: String::from_str("error"),
            percent: 0,
            message: e,
            failed: true,
            outputs: Vec::new(),
        },
    }
}

/// The steps to run for a request, or the message that nothing was asked for.
pub fn execution_steps(req: &EncodeRequest) -> (r: Result<Vec<(String, Vec<String>)>, String>)
    ensures
        r is Ok <==> wanted_outputs(req@).len() > 0,
        match r {
            Ok(steps) => plan_fits(req@, steps.deep_view()),
            Err(e) => e@ == "没有选择任何输出项"@,
        },
{
    let steps = plan(req);
    if steps.len() == 0 {
        Err(String::from_str("没有选择任何输出项"))
    } else {
        Ok(steps)
    }
}

/// The options given to ffmpeg before a step's own: quiet, progress
/// reports on standard output, and the source as input.
pub open spec fn invocation_spec(video: Seq<char>, args: Seq<Seq<char>>) -> Seq<Seq<char>> {
    seq![
        "-hide_banner"@,
        "-nostdin"@,
        "-loglevel"@,
        "error"@,
        "-progress"@,
        "pipe:1"@,
        "-nostats"@,
        "-i"@,
        video,
    ] + args
}

/// The full argument list of ffmpeg for one step on source `video`.
pub fn ffmpeg_invocation(video: &str, args: &Vec<String>) -> (r: Vec<String>)
    ensures
        r.deep_view() == invocation_spec(video@, args.deep_view()),
{
    let mut a: Vec<String> = Vec::new();
    push_str(&mut a, "-hide_banner");
    push_str(&mut a, "-nostdin");
    push_str(&mut a, "-loglevel");
    push_str(&mut a, "error");
    push_str(&mut a, "-progress");
    push_str(&mut a, "pipe:1");
    push_str(&mut a, "-nostats");
    push_str(&mut a, "-i");
    push_str(&mut a, video);
    let ghost head = a.deep_view();
    let mut i: usize = 0;
    while i < args.len()
        invariant
            i <= args.len(),
            a.deep_view() == head + args.deep_view().take(i as int),
        decreases args.len() - i,
    {
        push_string(&mut a, args[i].clone());
        i += 1;
        assert(a.deep_view() =~= head + args.deep_view().take(i as int));
    }
    assert(args.deep_view().take(args.len() as int) =~= args.deep_view());
    a
}

/// The message when a step begins: its label and an ellipsis.
pub fn step_start_message(label: &str) -> (r: String)
    ensures
        r@ == label@ + " …"@,
{
    let mut r = String::from_str(label);
    r.append(" …");
    r
}

/// The error of a failed step: its label, then the cause.
pub fn step_failure_message(label: &str, cause: &str) -> (r: String)
    ensures
        r@ == label@ + " 失败: "@ + cause@,
{
    let mut r = String::from_str(label);
    r.append(" 失败: ");
    r.append(cause);
    r
}

/// The error for an ffmpeg run that ended unsuccessfully, with its exit code.
pub fn ffmpeg_exit_message(code: Option<i32>) -> (r: String)
    ensures
        r@ == "ffmpeg 退出码 "@ + crate::text::debug_opt_i32(code),
{
    let mut r = String::from_str("ffmpeg 退出码 ");
    r.append(crate::text::debug_opt_i32_text(code).as_str());
    r
}

/// The value of an `out_time_us=` line of ffmpeg's progress report, rounded
/// to whole microseconds; `None` for any other line or a value that is not a
/// number.
pub open spec fn progress_value_spec(line: Seq<char>) -> Option<int> {
    let key = "out_time_us="@;
    if crate::text::has_prefix(line, key) {
        crate::text::parse_scaled_spec(trimmed(line.skip(key.len() as int)), 0)
    } else {
        None
    }
}

/// Reads an `out_time_us=` line of ffmpeg's progress report.
pub fn progress_value(line: &str) -> (r: Option<i64>)
    ensures
        match r {
            Some(x) => progress_value_spec(line@) == Some(x as int),
            None => progress_value_spec(line@) is None,
        },
{
    proof {
        reveal_strlit("out_time_us=");
    }
    if !crate::text::starts_with(line, "out_time_us=") {
        return None;
    }
    let v = crate::text::chars_of(line);
    let rest_chars = crate::text::sub_chars(&v, 12, v.len());
    let rest = crate::text::string_of(rest_chars.as_slice());
    proof {
        assert(rest@ =~= line@.skip(12));
    }
    let t = crate::text::trim(rest.as_str());
    crate::text::parse_scaled(t.as_str(), 0)
}

/// Overall progress in hundredths of a percent: the finished steps plus the
/// part of the current one done (its position clamped to the whole length;
/// none when the length is unknown), over the number of steps (at least 1).
pub open spec fn permyriad_spec(stage_idx: int, stage_count: int, out_us: int, total_us: int) -> int {
    let count = if stage_count > 1 {
        stage_count
    } else {
        1
    };
    let part = if total_us > 0 {
        let c = if out_us < 0 {
            0
        } else if out_us > total_us {
            total_us
        } else {
            out_us
        };
        c * 10000 / total_us
    } else {
        0
    };
    (stage_idx * 10000 + part) / count
}

/// Overall progress in hundredths of a percent (see `permyriad_spec`).
pub fn progress_permyriad(stage_idx: u64, stage_count: u64, out_us: i64, total_us: i64) -> (r: u128)
    ensures
        r == permyriad_spec(stage_idx as int, stage_count as int, out_us as int, total_us as int),
{
    let count: u128 = if stage_count > 1 {
        stage_count as u128
    } else {
        1
    };
    let part: u128 = if total_us > 0 {
        let c: u128 = if out_us < 0 {
            0
        } else if out_us > total_us {
            total_us as u128
        } else {
            out_us as u128
        };
        assert(c * 10000 <= total_us * 10000) by (nonlinear_arith)
            requires
                c <= total_us,
        ;
        let t: u128 = total_us as u128;
        let q = c * 10000 / t;
        assert((c * 10000) / (t as int) <= 10000) by (nonlinear_arith)
            requires
                c <= t,
                t > 0,
        ;
        q
    } else {
        0
    };
    (stage_idx as u128 * 10000 + part) / count
}

} // verus!
