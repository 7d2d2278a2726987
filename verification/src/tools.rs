//! Settings kept beside the program, and the search order for the external
//! programs (ffmpeg, ffprobe, mpv): the user's explicit choice, then the
//! program directory, then `PATH`, then known install locations.

use crate::paths::{join_names, join_path, joined_path, ordinary_end, path_under, plain_name, verbatim};
use crate::text::{is_empty_text, sorted_unique, strictly_sorted, debug_opt_i32, debug_opt_i32_text, first_line, first_line_spec, is_blank, trim, trimmed};
use vstd::prelude::*;

verus! {

/// The settings file's content.
#[derive(Clone, Debug)]
pub struct Settings {
    pub ffmpeg_path: String,
    pub ffprobe_path: String,
    pub mpv_path: String,
    pub out_dir: String,
    pub last_video: String,
    pub preview_height: u32,
    pub preview_crf: u32,
    pub high_crf: u32,
    pub audio_codec: String,
    pub audio_mode: String,
    pub audio_bitrate: String,
}

pub struct SettingsView {
    pub ffmpeg_path: Seq<char>,
    pub ffprobe_path: Seq<char>,
    pub mpv_path: Seq<char>,
    pub out_dir: Seq<char>,
    pub last_video: Seq<char>,
    pub preview_height: nat,
    pub preview_crf: nat,
    pub high_crf: nat,
    pub audio_codec: Seq<char>,
    pub audio_mode: Seq<char>,
    pub audio_bitrate: Seq<char>,
}

impl View for Settings {
    type V = SettingsView;

    open spec fn view(&self) -> SettingsView {
        SettingsView {
            ffmpeg_path: self.ffmpeg_path@,
            ffprobe_path: self.ffprobe_path@,
            mpv_path: self.mpv_path@,
            out_dir: self.out_dir@,
            last_video: self.last_video@,
            preview_height: self.preview_height as nat,
            preview_crf: self.preview_crf as nat,
            high_crf: self.high_crf as nat,
            audio_codec: self.audio_codec@,
            audio_mode: self.audio_mode@,
            audio_bitrate: self.audio_bitrate@,
        }
    }
}

/// Empty texts and zero numbers throughout.
pub open spec fn empty_settings() -> SettingsView {
    SettingsView {
        ffmpeg_path: Seq::empty(),
        ffprobe_path: Seq::empty(),
        mpv_path: Seq::empty(),
        out_dir: Seq::empty(),
        last_video: Seq::empty(),
        preview_height: 0,
        preview_crf: 0,
        high_crf: 0,
        audio_codec: Seq::empty(),
        audio_mode: Seq::empty(),
        audio_bitrate: Seq::empty(),
    }
}

impl Default for Settings {
    fn default() -> (r: Self)
        ensures
            r@ == empty_settings(),
    {
        Settings {
            ffmpeg_path: String::new(),
            ffprobe_path: String::new(),
            mpv_path: String::new(),
            out_dir: String::new(),
            last_video: String::new(),
            preview_height: 0,
            preview_crf: 0,
            high_crf: 0,
            audio_codec: String::new(),
            audio_mode: String::new(),
            audio_bitrate: String::new(),
        }
    }
}

/// The settings with every unset value (zero or empty) replaced by its
/// default: preview 720p at CRF 30, full-resolution CRF 18, FLAC, stereo,
/// 320k; the paths stay as they are.
pub open spec fn with_defaults_spec(s: SettingsView) -> SettingsView {
    SettingsView {
        preview_height: if s.preview_height == 0 {
            720
        } else {
            s.preview_height
        },
        preview_crf: if s.preview_crf == 0 {
            30
        } else {
            s.preview_crf
        },
        high_crf: if s.high_crf == 0 {
            18
        } else {
            s.high_crf
        },
        audio_codec: if s.audio_codec.len() == 0 {
            "flac"@
        } else {
            s.audio_codec
        },
        audio_mode: if s.audio_mode.len() == 0 {
            "stereo"@
        } else {
            s.audio_mode
        },
        audio_bitrate: if s.audio_bitrate.len() == 0 {
            "320k"@
        } else {
            s.audio_bitrate
        },
        ..s
    }
}

impl Settings {
    /// Fills every unset value with its default (see `with_defaults_spec`).
    pub fn with_defaults(self) -> (r: Self)
        ensures
            r@ == with_defaults_spec(self@),
    {
        let mut s = self;
        if s.preview_height == 0 {
            s.preview_height = 720;
        }
        if s.preview_crf == 0 {
            s.preview_crf = 30;
        }
        if s.high_crf == 0 {
            s.high_crf = 18;
        }
        if is_empty_text(&s.audio_codec) {
            s.audio_codec = String::from_str("flac");
        }
        if is_empty_text(&s.audio_mode) {
            s.audio_mode = String::from_str("stereo");
        }
        if is_empty_text(&s.audio_bitrate) {
            s.audio_bitrate = String::from_str("320k");
        }
        s
    }
}

/// The name of the settings file.
pub open spec fn settings_file_name() -> Seq<char> {
    "TJ-VideoPrep.settings.json"@
}

/// Where the settings are kept: the settings file in the program directory,
/// separated from it by `/` or `\` unless the directory already ends in a
/// separator or drive.
pub fn settings_path(app_dir: &str) -> (r: String)
    ensures
        !verbatim(app_dir@) ==> joined_path(app_dir@, settings_file_name(), r@),
        app_dir@.len() == 0 ==> r@ == settings_file_name(),
        app_dir@.len() > 0 && app_dir@.last() == '/' && !verbatim(app_dir@) ==> r@ == app_dir@
            + settings_file_name(),
        app_dir@.len() > 0 && ordinary_end(app_dir@.last()) && !verbatim(app_dir@) ==> {
            ||| r@ == app_dir@ + seq!['/'] + settings_file_name()
            ||| r@ == app_dir@ + seq!['\\'] + settings_file_name()
        },
{
    proof {
        reveal_strlit("TJ-VideoPrep.settings.json");
        assert(plain_name(settings_file_name()));
    }
    join_path(app_dir, "TJ-VideoPrep.settings.json")
}

/// The first line of `mpv --version`, trimmed; nothing when mpv could not
/// be run or printed nothing.
pub open spec fn mpv_version_spec(capture: Result<Seq<char>, Seq<char>>) -> Option<Seq<char>> {
    match capture {
        Ok(out) => match first_line_spec(out) {
            Some(l) => Some(trimmed(l)),
            None => None,
        },
        Err(_) => None,
    }
}

/// The version mpv reports, from the captured output of `mpv --version`
/// (or the failure to run it).
pub fn mpv_version(capture: Result<String, String>) -> (r: Option<String>)
    ensures
        match r {
            Some(v) => mpv_version_spec(
                match capture {
                    Ok(o) => Ok(o@),
                    Err(e) => Err(e@),
                },
            ) == Some(v@),
            None => mpv_version_spec(
                match capture {
                    Ok(o) => Ok(o@),
                    Err(e) => Err(e@),
                },
            ) is None,
        },
{
    match capture {
        Ok(out) => match first_line(out.as_str()) {
            Some(l) => Some(trim(l.as_str())),
            None => None,
        },
        Err(_) => None,
    }
}

/// The error for a program that ran and failed: its name, its exit code
/// and what it wrote to standard error, trimmed.
pub fn capture_failure_message(program: &str, code: Option<i32>, stderr: &str) -> (r: String)
    ensures
        r@ == program@ + " 退出码 "@ + debug_opt_i32(code) + ": "@ + trimmed(stderr@),
{
    let mut r = String::from_str(program);
    r.append(" 退出码 ");
    r.append(debug_opt_i32_text(code).as_str());
    r.append(": ");
    r.append(trim(stderr).as_str());
    r
}

/// The executable's file name: `<stem>.exe` on Windows, the stem elsewhere.
pub open spec fn exe_name_spec(stem: Seq<char>, windows: bool) -> Seq<char> {
    if windows {
        stem + ".exe"@
    } else {
        stem
    }
}

/// The executable's file name for `stem`.
pub fn exe_name(stem: &str, windows: bool) -> (r: String)
    ensures
        r@ == exe_name_spec(stem@, windows),
{
    let mut r = String::from_str(stem);
    if windows {
        r.append(".exe");
    }
    r
}

/// The first candidate, from position `k` on, that is present.
pub open spec fn first_present(c: Seq<Seq<char>>, present: Seq<bool>, k: int) -> Option<Seq<char>>
    decreases c.len() - k,
{
    if k < 0 || k >= c.len() {
        None
    } else if k < present.len() && present[k] {
        Some(c[k])
    } else {
        first_present(c, present, k + 1)
    }
}

/// The first candidate that is present (`present[i]` tells of `candidates[i]`;
/// a candidate with no entry there is taken as absent).
pub fn first_existing(candidates: &Vec<String>, present: &Vec<bool>) -> (r: Option<String>)
    ensures
        match r {
            Some(p) => first_present(candidates.deep_view(), present@, 0) == Some(p@),
            None => first_present(candidates.deep_view(), present@, 0) is None,
        },
{
    let mut i: usize = 0;
    while i < candidates.len()
        invariant
            i <= candidates.len(),
            first_present(candidates.deep_view(), present@, 0) == first_present(
                candidates.deep_view(),
                present@,
                i as int,
            ),
        decreases candidates.len() - i,
    {
        if i < present.len() && present[i] {
            assert(candidates.deep_view()[i as int] == candidates@[i as int]@);
            return Some(candidates[i].clone());
        }
        i += 1;
    }
    None
}


/// The user's explicit choice, trimmed, when it is not blank.
pub open spec fn explicit_part(explicit: Seq<char>) -> Seq<Seq<char>> {
    if trimmed(explicit).len() > 0 {
        seq![trimmed(explicit)]
    } else {
        Seq::empty()
    }
}

/// The places searched for ffmpeg or ffprobe, in order: the explicit
/// choice; `vendor/ffmpeg/` and the program directory itself; each `PATH`
/// directory; WinGet's link directory under `LOCALAPPDATA`;
/// `ffmpeg/bin` under `ProgramFiles`.
pub open spec fn ffmpeg_candidates_fit(
    stem: Seq<char>,
    explicit: Seq<char>,
    app_dir: Seq<char>,
    path_dirs: Seq<Seq<char>>,
    local_app_data: Option<Seq<char>>,
    program_files: Option<Seq<char>>,
    windows: bool,
    r: Seq<Seq<char>>,
) -> bool {
    let exe = exe_name_spec(stem, windows);
    let e = explicit_part(explicit);
    let n = e.len() as int;
    let p = path_dirs.len() as int;
    let nl = if local_app_data is Some {
        1int
    } else {
        0int
    };
    let np = if program_files is Some {
        1int
    } else {
        0int
    };
    &&& r.len() == n + 2 + p + nl + np
    &&& r.take(n) == e
    &&& path_under(app_dir, seq!["vendor"@, "ffmpeg"@, exe], r[n])
    &&& path_under(app_dir, seq![exe], r[n + 1])
    &&& forall|i: int|
        #![trigger path_dirs[i]]
        0 <= i < p ==> path_under(path_dirs[i], seq![exe], r[n + 2 + i])
    &&& (local_app_data matches Some(l) ==> path_under(
        l,
        seq!["Microsoft"@, "WinGet"@, "Links"@, exe],
        r[n + 2 + p],
    ))
    &&& (program_files matches Some(f) ==> path_under(f, seq!["ffmpeg"@, "bin"@, exe], r[n + 2 + p + nl]))
}

fn names1(a: &str) -> (r: Vec<String>)
    ensures
        r.deep_view() == seq![a@],
{
    let mut v: Vec<String> = Vec::new();
    v.push(String::from_str(a));
    assert(v.deep_view() =~= seq![a@]);
    v
}

fn names2(a: &str, b: &str) -> (r: Vec<String>)
    ensures
        r.deep_view() == seq![a@, b@],
{
    let mut v: Vec<String> = Vec::new();
    v.push(String::from_str(a));
    v.push(String::from_str(b));
    assert(v.deep_view() =~= seq![a@, b@]);
    v
}

fn names3(a: &str, b: &str, c: &str) -> (r: Vec<String>)
    ensures
        r.deep_view() == seq![a@, b@, c@],
{
    let mut v: Vec<String> = Vec::new();
    v.push(String::from_str(a));
    v.push(String::from_str(b));
    v.push(String::from_str(c));
    assert(v.deep_view() =~= seq![a@, b@, c@]);
    v
}

fn names4(a: &str, b: &str, c: &str, d: &str) -> (r: Vec<String>)
    ensures
        r.deep_view() == seq![a@, b@, c@, d@],
{
    let mut v: Vec<String> = Vec::new();
    v.push(String::from_str(a));
    v.push(String::from_str(b));
    v.push(String::from_str(c));
    v.push(String::from_str(d));
    assert(v.deep_view() =~= seq![a@, b@, c@, d@]);
    v
}

fn push_text(v: &mut Vec<String>, s: String)
    ensures
        final(v).deep_view() == old(v).deep_view().push(s@),
{
    v.push(s);
    assert(final(v).deep_view() =~= old(v).deep_view().push(s@));
}

/// The explicit choice, trimmed, when it is not blank.
fn explicit_candidates(explicit: &str) -> (r: Vec<String>)
    ensures
        r.deep_view() == explicit_part(explicit@),
{
    let mut v: Vec<String> = Vec::new();
    if !is_blank(explicit) {
        push_text(&mut v, trim(explicit));
    }
    assert(v.deep_view() =~= explicit_part(explicit@));
    v
}

/// Each `PATH` directory with the executable's name joined on.
fn path_candidates(path_dirs: &Vec<String>, exe: &str, v: &mut Vec<String>)
    ensures
        final(v).deep_view().len() == old(v).deep_view().len() + path_dirs.len(),
        final(v).deep_view().take(old(v).deep_view().len() as int) == old(v).deep_view(),
        forall|i: int|
            #![trigger path_dirs.deep_view()[i]]
            0 <= i < path_dirs.len() ==> path_under(
                path_dirs.deep_view()[i],
                seq![exe@],
                final(v).deep_view()[old(v).deep_view().len() + i],
            ),
{
    let ghost start = v.deep_view();
    let mut i: usize = 0;
    while i < path_dirs.len()
        invariant
            i <= path_dirs.len(),
            v.deep_view().len() == start.len() + i,
            v.deep_view().take(start.len() as int) == start,
            forall|j: int|
                #![trigger path_dirs.deep_view()[j]]
                0 <= j < i ==> path_under(
                    path_dirs.deep_view()[j],
                    seq![exe@],
                    v.deep_view()[start.len() + j],
                ),
        decreases path_dirs.len() - i,
    {
        let p = join_names(path_dirs[i].as_str(), &names1(exe));
        let ghost before = v.deep_view();
        push_text(v, p);
        proof {
            assert(path_dirs.deep_view()[i as int] == path_dirs@[i as int]@);
            assert(v.deep_view().take(start.len() as int) =~= before.take(start.len() as int));
            assert forall|j: int|
                #![trigger path_dirs.deep_view()[j]]
                0 <= j < i + 1 implies path_under(
                path_dirs.deep_view()[j],
                seq![exe@],
                v.deep_view()[start.len() + j],
            ) by {
                if j < i {
                    assert(v.deep_view()[start.len() + j] == before[start.len() + j]);
                }
            }
        }
        i += 1;
    }
}

/// The places searched for ffmpeg (stem `ffmpeg`) or ffprobe (stem
/// `ffprobe`), in order (see `ffmpeg_candidates_fit`).
pub fn ffmpeg_candidates(
    stem: &str,
    explicit: &str,
    app_dir: &str,
    path_dirs: &Vec<String>,
    local_app_data: &Option<String>,
    program_files: &Option<String>,
    windows: bool,
) -> (r: Vec<String>)
    ensures
        ffmpeg_candidates_fit(
            stem@,
            explicit@,
            app_dir@,
            path_dirs.deep_view(),
            match local_app_data {
                Some(l) => Some(l@),
                None => None,
            },
            match program_files {
                Some(f) => Some(f@),
                None => None,
            },
            windows,
            r.deep_view(),
        ),
{
    let exe = exe_name(stem, windows);
    let mut v = explicit_candidates(explicit);
    let ghost e = v.deep_view();
    push_text(&mut v, join_names(app_dir, &names3("vendor", "ffmpeg", exe.as_str())));
    push_text(&mut v, join_names(app_dir, &names1(exe.as_str())));
    let ghost head = v.deep_view();
    path_candidates(path_dirs, exe.as_str(), &mut v);
    let ghost mid = v.deep_view();
    proof {
        assert(mid.take(head.len() as int)[e.len() as int] == head[e.len() as int]);
        assert(mid.take(head.len() as int)[e.len() as int + 1] == head[e.len() as int + 1]);
    }
    match local_app_data {
        Some(l) => push_text(
            &mut v,
            join_names(l.as_str(), &names4("Microsoft", "WinGet", "Links", exe.as_str())),
        ),
        None => {},
    }
    let ghost mid2 = v.deep_view();
    match program_files {
        Some(f) => push_text(&mut v, join_names(f.as_str(), &names3("ffmpeg", "bin", exe.as_str()))),
        None => {},
    }
    proof {
        let r = v.deep_view();
        assert forall|k: int| 0 <= k < e.len() implies r[k] == e[k] by {
            assert(r[k] == mid[k]);
            assert(mid.take(head.len() as int)[k] == head[k]);
        }
        assert(r.take(e.len() as int) =~= e);
        assert(r[e.len() as int] == head[e.len() as int]);
        assert(r[e.len() as int + 1] == head[e.len() as int + 1]);
        assert forall|i: int|
            #![trigger path_dirs.deep_view()[i]]
            0 <= i < path_dirs.len() implies path_under(
            path_dirs.deep_view()[i],
            seq![exe@],
            r[e.len() as int + 2 + i],
        ) by {
            assert(r[e.len() as int + 2 + i] == mid[e.len() as int + 2 + i]);
        }
        if local_app_data is Some {
            assert(r[mid.len() as int] == mid2[mid.len() as int]);
        }
    }
    v
}


/// The places searched for mpv, in order: the explicit choice;
/// `vendor/mpv/`, `vendor/mpv/mpv/` and the program directory itself; each
/// `PATH` directory; `mpv` under `ProgramFiles`; `Programs/mpv` under
/// `LOCALAPPDATA`; `mpv.net` under `ProgramFiles`.
pub open spec fn mpv_candidates_fit(
    explicit: Seq<char>,
    app_dir: Seq<char>,
    path_dirs: Seq<Seq<char>>,
    local_app_data: Option<Seq<char>>,
    program_files: Option<Seq<char>>,
    windows: bool,
    r: Seq<Seq<char>>,
) -> bool {
    let exe = exe_name_spec("mpv"@, windows);
    let e = explicit_part(explicit);
    let n = e.len() as int;
    let p = path_dirs.len() as int;
    let nl = if local_app_data is Some {
        1int
    } else {
        0int
    };
    let np = if program_files is Some {
        1int
    } else {
        0int
    };
    let k = n + 3 + p;
    &&& r.len() == k + nl + 2 * np
    &&& r.take(n) == e
    &&& path_under(app_dir, seq!["vendor"@, "mpv"@, exe], r[n])
    &&& path_under(app_dir, seq!["vendor"@, "mpv"@, "mpv"@, exe], r[n + 1])
    &&& path_under(app_dir, seq![exe], r[n + 2])
    &&& forall|i: int|
        #![trigger path_dirs[i]]
        0 <= i < p ==> path_under(path_dirs[i], seq![exe], r[n + 3 + i])
    &&& (program_files matches Some(f) ==> path_under(f, seq!["mpv"@, exe], r[k]))
    &&& (local_app_data matches Some(l) ==> path_under(l, seq!["Programs"@, "mpv"@, exe], r[k + np]))
    &&& (program_files matches Some(f) ==> path_under(f, seq!["mpv.net"@, exe], r[k + np + nl]))
}

/// The places searched for mpv, in order (see `mpv_candidates_fit`).
pub fn mpv_search_paths(
    explicit: &str,
    app_dir: &str,
    path_dirs: &Vec<String>,
    local_app_data: &Option<String>,
    program_files: &Option<String>,
    windows: bool,
) -> (r: Vec<String>)
    ensures
        mpv_candidates_fit(
            explicit@,
            app_dir@,
            path_dirs.deep_view(),
            match local_app_data {
                Some(l) => Some(l@),
                None => None,
            },
            match program_files {
                Some(f) => Some(f@),
                None => None,
            },
            windows,
            r.deep_view(),
        ),
{
    let exe = exe_name("mpv", windows);
    let mut v = explicit_candidates(explicit);
    let ghost e = v.deep_view();
    push_text(&mut v, join_names(app_dir, &names3("vendor", "mpv", exe.as_str())));
    push_text(&mut v, join_names(app_dir, &names4("vendor", "mpv", "mpv", exe.as_str())));
    push_text(&mut v, join_names(app_dir, &names1(exe.as_str())));
    let ghost head = v.deep_view();
    path_candidates(path_dirs, exe.as_str(), &mut v);
    let ghost mid = v.deep_view();
    match program_files {
        Some(f) => push_text(&mut v, join_names(f.as_str(), &names2("mpv", exe.as_str()))),
        None => {},
    }
    let ghost mid2 = v.deep_view();
    match local_app_data {
        Some(l) => push_text(
            &mut v,
            join_names(l.as_str(), &names3("Programs", "mpv", exe.as_str())),
        ),
        None => {},
    }
    let ghost mid3 = v.deep_view();
    match program_files {
        Some(f) => push_text(&mut v, join_names(f.as_str(), &names2("mpv.net", exe.as_str()))),
        None => {},
    }
    proof {
        let r = v.deep_view();
        assert forall|k: int| 0 <= k < head.len() implies r[k] == head[k] by {
            assert(r[k] == mid[k]);
            assert(mid.take(head.len() as int)[k] == head[k]);
        }
        assert(r.take(e.len() as int) =~= e);
        assert forall|i: int|
            #![trigger path_dirs.deep_view()[i]]
            0 <= i < path_dirs.len() implies path_under(
            path_dirs.deep_view()[i],
            seq![exe@],
            r[e.len() as int + 3 + i],
        ) by {
            assert(r[e.len() as int + 3 + i] == mid[e.len() as int + 3 + i]);
        }
        if program_files is Some {
            assert(r[mid.len() as int] == mid2[mid.len() as int]);
        }
        if local_app_data is Some {
            assert(r[mid2.len() as int] == mid3[mid2.len() as int]);
        }
    }
    v
}

/// The mpv copies offered for choice: the two places under `vendor/`, and
/// `mpv` and `mpv.net` under `ProgramFiles`.
pub open spec fn mpv_offer_fit(
    app_dir: Seq<char>,
    program_files: Option<Seq<char>>,
    windows: bool,
    r: Seq<Seq<char>>,
) -> bool {
    let exe = exe_name_spec("mpv"@, windows);
    &&& r.len() == (if program_files is Some {
        4int
    } else {
        2int
    })
    &&& path_under(app_dir, seq!["vendor"@, "mpv"@, exe], r[0])
    &&& path_under(app_dir, seq!["vendor"@, "mpv"@, "mpv"@, exe], r[1])
    &&& (program_files matches Some(f) ==> path_under(f, seq!["mpv"@, exe], r[2]) && path_under(
        f,
        seq!["mpv.net"@, exe],
        r[3],
    ))
}

/// The places whose mpv copies are offered for choice (see `mpv_offer_fit`);
/// with the copy found first on `PATH`, the offer is `mpv_offer` of those
/// that exist.
pub fn mpv_offer_paths(app_dir: &str, program_files: &Option<String>, windows: bool) -> (r: Vec<
    String,
>)
    ensures
        mpv_offer_fit(
            app_dir@,
            match program_files {
                Some(f) => Some(f@),
                None => None,
            },
            windows,
            r.deep_view(),
        ),
{
    let exe = exe_name("mpv", windows);
    let mut v: Vec<String> = Vec::new();
    push_text(&mut v, join_names(app_dir, &names3("vendor", "mpv", exe.as_str())));
    push_text(&mut v, join_names(app_dir, &names4("vendor", "mpv", "mpv", exe.as_str())));
    match program_files {
        Some(f) => {
            push_text(&mut v, join_names(f.as_str(), &names2("mpv", exe.as_str())));
            push_text(&mut v, join_names(f.as_str(), &names2("mpv.net", exe.as_str())));
        },
        None => {},
    }
    v
}


/// The mpv copies to offer, from the paths of those found: in increasing
/// order, each once.
pub fn mpv_offer(found: &Vec<String>) -> (r: Vec<String>)
    ensures
        strictly_sorted(r.deep_view()),
        forall|y: Seq<char>| r.deep_view().contains(y) <==> found.deep_view().contains(y),
{
    sorted_unique(found)
}


/// Where `PATH` could hold the executable `stem`: each directory in turn
/// with the executable's name joined on.
pub fn path_search(stem: &str, path_dirs: &Vec<String>, windows: bool) -> (r: Vec<String>)
    ensures
        r.deep_view().len() == path_dirs.len(),
        forall|i: int|
            #![trigger path_dirs.deep_view()[i]]
            0 <= i < path_dirs.len() ==> path_under(
                path_dirs.deep_view()[i],
                seq![exe_name_spec(stem@, windows)],
                r.deep_view()[i],
            ),
{
    let exe = exe_name(stem, windows);
    let mut v: Vec<String> = Vec::new();
    path_candidates(path_dirs, exe.as_str(), &mut v);
    v
}

} // verus!
