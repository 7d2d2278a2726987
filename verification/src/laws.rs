//! Properties of the library as a whole, proved over the specifications that
//! the functions' own contracts use.

use crate::encode::{
    describe_all, filter_parts, output_file, outputs_spec, permyriad_spec, plan_fits, seconds6_text,
    step_args, step_fits, wanted_outputs, EncodeRequestView, OutputKind,
};
use crate::text::has_suffix;
use crate::paths::{ordinary_end, relative_name, verbatim};
use crate::json::JsonValue;
use crate::probe::{align_note_spec, delay_spec, recommendation_spec, scan};
use crate::text::{
    all_digits, char_pos, digit_char, digits_value, has_sub, int_text, lowercase_of, nat_text, pad_frac,
    parse_i64_spec, parse_scaled_spec, sign_split, trimmed,
};
use crate::tools::{
    explicit_part, ffmpeg_candidates_fit, first_present, mpv_candidates_fit, with_defaults_spec,
    SettingsView,
};
use vstd::prelude::*;

verus! {

/// Alignment: when it is applied, an audio track that starts more than 5 ms
/// after the video gets that many milliseconds of silence in front, one that
/// starts more than 5 ms before has that much cut from its head, and an
/// offset within 5 ms (or alignment switched off) adds no filter.
pub proof fn law_alignment_filter(r: EncodeRequestView)
    ensures
        r.apply_align && r.delay_ms > 5 ==> filter_parts(r)[0] == "adelay="@ + int_text(r.delay_ms)
            + ":all=1"@,
        r.apply_align && r.delay_ms < -5 ==> filter_parts(r)[0] == "atrim=start="@ + seconds6_text(
            (-r.delay_ms) as nat,
        ) + ",asetpts=PTS-STARTPTS"@,
        !r.apply_align || (-5 <= r.delay_ms <= 5) ==> filter_parts(r).len() == (if r.audio_mode
            == "center"@ {
            1int
        } else {
            0int
        }),
{
}

/// Centre-channel mode takes the centre channel of a 5.1 or 7.1 (or
/// six-channel) layout, and falls back to a plain mono downmix for any other
/// layout, so it never asks for a channel that is not there.
pub proof fn law_centre_channel(r: EncodeRequestView)
    requires
        r.audio_mode == "center"@,
    ensures
        filter_parts(r).len() >= 1,
        filter_parts(r).last() == (if has_sub(lowercase_of(r.channel_layout), "5.1"@) || has_sub(
            lowercase_of(r.channel_layout),
            "7.1"@,
        ) || has_sub(lowercase_of(r.channel_layout), "6"@) {
            "pan=mono|c0=FC"@
        } else {
            "aformat=channel_layouts=mono"@
        }),
{
}

/// The note shown after analysis and the export agree: the note says no
/// compensation is needed exactly when, with alignment applied, the export
/// adds no alignment filter for that offset.
pub proof fn law_note_agrees_with_export(r: EncodeRequestView)
    requires
        r.apply_align,
    ensures
        (align_note_spec(r.delay_ms) == "音轨与视频起点一致，无需补偿"@) <==> filter_parts(r).len() == (
        if r.audio_mode == "center"@ {
            1int
        } else {
            0int
        }),
{
    reveal_strlit("音轨与视频起点一致，无需补偿");
    reveal_strlit("音轨比视频晚 ");
    reveal_strlit("音轨比视频早 ");
    let same = "音轨与视频起点一致，无需补偿"@;
    if r.delay_ms > 5 {
        let n = align_note_spec(r.delay_ms);
        assert(n[2] == '比');
        assert(same[2] == '与');
    } else if r.delay_ms < -5 {
        let n = align_note_spec(r.delay_ms);
        assert(n[2] == '比');
        assert(same[2] == '与');
    }
}

/// The measured offset is antisymmetric, and positive only when the audio
/// starts later than the video.
pub proof fn law_delay_sign(audio_ns: int, video_ns: int)
    ensures
        delay_spec(audio_ns, video_ns) == -delay_spec(video_ns, audio_ns),
        delay_spec(audio_ns, video_ns) > 0 ==> audio_ns > video_ns,
        delay_spec(audio_ns, video_ns) < 0 ==> audio_ns < video_ns,
        audio_ns == video_ns ==> delay_spec(audio_ns, video_ns) == 0,
{
}

/// Filling in defaults twice changes nothing more, and a value that was set
/// is kept.
pub proof fn law_defaults_idempotent(s: SettingsView)
    ensures
        with_defaults_spec(with_defaults_spec(s)) == with_defaults_spec(s),
        s.preview_height != 0 ==> with_defaults_spec(s).preview_height == s.preview_height,
        s.audio_codec.len() != 0 ==> with_defaults_spec(s).audio_codec == s.audio_codec,
        with_defaults_spec(s).ffmpeg_path == s.ffmpeg_path,
        with_defaults_spec(s).mpv_path == s.mpv_path,
{
    reveal_strlit("flac");
    reveal_strlit("stereo");
    reveal_strlit("320k");
    assert(with_defaults_spec(with_defaults_spec(s)) =~= with_defaults_spec(s));
}

/// The user's explicit choice of ffmpeg or ffprobe wins whenever it exists.
pub proof fn law_explicit_ffmpeg_wins(
    stem: Seq<char>,
    explicit: Seq<char>,
    app_dir: Seq<char>,
    path_dirs: Seq<Seq<char>>,
    local_app_data: Option<Seq<char>>,
    program_files: Option<Seq<char>>,
    windows: bool,
    candidates: Seq<Seq<char>>,
    present: Seq<bool>,
)
    requires
        ffmpeg_candidates_fit(
            stem,
            explicit,
            app_dir,
            path_dirs,
            local_app_data,
            program_files,
            windows,
            candidates,
        ),
        trimmed(explicit).len() > 0,
        present.len() > 0 && present[0],
    ensures
        first_present(candidates, present, 0) == Some(trimmed(explicit)),
{
    assert(candidates.take(1)[0] == explicit_part(explicit)[0]);
}

/// The user's explicit choice of mpv wins whenever it exists.
pub proof fn law_explicit_mpv_wins(
    explicit: Seq<char>,
    app_dir: Seq<char>,
    path_dirs: Seq<Seq<char>>,
    local_app_data: Option<Seq<char>>,
    program_files: Option<Seq<char>>,
    windows: bool,
    candidates: Seq<Seq<char>>,
    present: Seq<bool>,
)
    requires
        mpv_candidates_fit(
            explicit,
            app_dir,
            path_dirs,
            local_app_data,
            program_files,
            windows,
            candidates,
        ),
        trimmed(explicit).len() > 0,
        present.len() > 0 && present[0],
    ensures
        first_present(candidates, present, 0) == Some(trimmed(explicit)),
{
    assert(candidates.take(1)[0] == explicit_part(explicit)[0]);
}

proof fn lemma_outputs_of_fitting(r: EncodeRequestView, steps: Seq<(Seq<char>, Seq<Seq<char>>)>)
    requires
        forall|i: int| 0 <= i < steps.len() ==> (#[trigger] steps[i]).1.len() > 0,
    ensures
        outputs_spec(steps) == steps.map_values(
            |s: (Seq<char>, Seq<Seq<char>>)| s.1.last(),
        ),
    decreases steps.len(),
{
    if steps.len() > 0 {
        assert(steps.drop_last().len() == steps.len() - 1);
        assert forall|i: int| 0 <= i < steps.drop_last().len() implies (
        #[trigger] steps.drop_last()[i]).1.len() > 0 by {
            assert(steps.drop_last()[i] == steps[i]);
        }
        lemma_outputs_of_fitting(r, steps.drop_last());
        assert(steps.last().1.len() > 0);
        assert(outputs_spec(steps) =~= steps.map_values(
            |s: (Seq<char>, Seq<Seq<char>>)| s.1.last(),
        ));
    } else {
        assert(outputs_spec(steps) =~= steps.map_values(
            |s: (Seq<char>, Seq<Seq<char>>)| s.1.last(),
        ));
    }
}

/// A finished job produces one file per requested output, in the order of
/// the plan, each the output path of its step, and every step overwrites
/// its output (`-y` just before it).
pub proof fn law_one_output_per_step(r: EncodeRequestView, steps: Seq<(Seq<char>, Seq<Seq<char>>)>)
    requires
        plan_fits(r, steps),
    ensures
        outputs_spec(steps).len() == wanted_outputs(r).len(),
        forall|i: int|
            0 <= i < steps.len() ==> #[trigger] outputs_spec(steps)[i] == steps[i].1.last(),
        forall|i: int|
            0 <= i < steps.len() ==> (#[trigger] steps[i]).1[steps[i].1.len() - 2] == "-y"@,
{
    assert forall|i: int| 0 <= i < steps.len() implies (#[trigger] steps[i]).1.len() > 0 by {
        assert(crate::encode::step_fits(r, wanted_outputs(r)[i], steps[i]));
    }
    lemma_outputs_of_fitting(r, steps);
    assert forall|i: int|
        0 <= i < steps.len() implies (#[trigger] steps[i]).1[steps[i].1.len() - 2] == "-y"@ by {
        assert(crate::encode::step_fits(r, wanted_outputs(r)[i], steps[i]));
        let k = wanted_outputs(r)[i];
        let out = steps[i].1.last();
        assert(steps[i].1 == step_args(r, k, out));
    }
}

/// A job's steps, and so the commands shown for it, are fixed by the
/// request and the output paths: two step lists that both fit a request and
/// write to the same paths are the same, and are shown alike.
pub proof fn law_plan_fixed_by_outputs(
    r: EncodeRequestView,
    s1: Seq<(Seq<char>, Seq<Seq<char>>)>,
    s2: Seq<(Seq<char>, Seq<Seq<char>>)>,
    ffmpeg: Seq<char>,
    video: Seq<char>,
)
    requires
        plan_fits(r, s1),
        plan_fits(r, s2),
        forall|i: int| 0 <= i < s1.len() ==> #[trigger] s1[i].1.last() == s2[i].1.last(),
    ensures
        s1 == s2,
        describe_all(s1, ffmpeg, video) == describe_all(s2, ffmpeg, video),
{
    assert forall|i: int| 0 <= i < s1.len() implies #[trigger] s1[i] == s2[i] by {
        let k = wanted_outputs(r)[i];
        assert(step_fits(r, k, s1[i]));
        assert(step_fits(r, k, s2[i]));
        assert(s1[i].1.last() == s2[i].1.last());
    }
    assert(s1 =~= s2);
}

/// The options of an output are the same whatever its path, but for the
/// path itself, which comes last.
proof fn lemma_args_but_output(r: EncodeRequestView, k: OutputKind, o1: Seq<char>, o2: Seq<char>)
    ensures
        step_args(r, k, o1).drop_last() == step_args(r, k, o2).drop_last(),
        step_args(r, k, o1).last() == o1,
{
    match k {
        OutputKind::Audio => {
            assert(step_args(r, k, o1).drop_last() =~= step_args(r, k, o2).drop_last());
        },
        OutputKind::Preview => {
            assert(step_args(r, k, o1).drop_last() =~= step_args(r, k, o2).drop_last());
        },
        OutputKind::High => {
            assert(step_args(r, k, o1).drop_last() =~= step_args(r, k, o2).drop_last());
        },
        OutputKind::Remux => {
            assert(step_args(r, k, o1).drop_last() =~= step_args(r, k, o2).drop_last());
        },
    }
}

/// Two step lists that fit one request (such as the one `plan` returns and
/// the one `describe_plan` shows) have the same labels and the same options
/// but for the output paths; each output path ends with the output's file
/// name, and the two paths of a step are equal or are the directory and the
/// file name put together with the two different separators (where the
/// directory is empty or ends in `/` or an ordinary character).
pub proof fn law_plans_differ_only_in_separators(
    r: EncodeRequestView,
    s1: Seq<(Seq<char>, Seq<Seq<char>>)>,
    s2: Seq<(Seq<char>, Seq<Seq<char>>)>,
)
    requires
        plan_fits(r, s1),
        plan_fits(r, s2),
    ensures
        s1.len() == s2.len(),
        forall|i: int| 0 <= i < s1.len() ==> (#[trigger] s1[i]).0 == s2[i].0,
        forall|i: int| 0 <= i < s1.len() ==> (#[trigger] s1[i]).1.drop_last() == s2[i].1.drop_last(),
        forall|i: int|
            0 <= i < s1.len() && !verbatim(r.out_dir) ==> has_suffix(
                (#[trigger] s1[i]).1.last(),
                output_file(r, wanted_outputs(r)[i]),
            ),
        forall|i: int|
            0 <= i < s1.len() && !verbatim(r.out_dir) && relative_name(
                output_file(r, wanted_outputs(r)[i]),
            ) && (r.out_dir.len() == 0 || r.out_dir.last() == '/' || ordinary_end(r.out_dir.last()))
                ==> {
                let f = output_file(r, wanted_outputs(r)[i]);
                let d = r.out_dir;
                ||| (#[trigger] s1[i]).1.last() == s2[i].1.last()
                ||| s1[i].1.last() == d + seq!['/'] + f && s2[i].1.last() == d + seq!['\\'] + f
                ||| s1[i].1.last() == d + seq!['\\'] + f && s2[i].1.last() == d + seq!['/'] + f
            },
{
    assert forall|i: int| 0 <= i < s1.len() implies (#[trigger] s1[i]).0 == s2[i].0 && s1[i].1.drop_last()
        == s2[i].1.drop_last() by {
        let k = wanted_outputs(r)[i];
        assert(step_fits(r, k, s1[i]));
        assert(step_fits(r, k, s2[i]));
        lemma_args_but_output(r, k, s1[i].1.last(), s2[i].1.last());
    }
    assert forall|i: int|
        0 <= i < s1.len() && !verbatim(r.out_dir) implies has_suffix(
            (#[trigger] s1[i]).1.last(),
            output_file(r, wanted_outputs(r)[i]),
        ) by {
        assert(step_fits(r, wanted_outputs(r)[i], s1[i]));
    }
    assert forall|i: int|
        0 <= i < s1.len() && !verbatim(r.out_dir) && relative_name(
            output_file(r, wanted_outputs(r)[i]),
        ) && (r.out_dir.len() == 0 || r.out_dir.last() == '/' || ordinary_end(r.out_dir.last()))
            implies {
            let f = output_file(r, wanted_outputs(r)[i]);
            let d = r.out_dir;
            ||| (#[trigger] s1[i]).1.last() == s2[i].1.last()
            ||| s1[i].1.last() == d + seq!['/'] + f && s2[i].1.last() == d + seq!['\\'] + f
            ||| s1[i].1.last() == d + seq!['\\'] + f && s2[i].1.last() == d + seq!['/'] + f
        } by {
        let k = wanted_outputs(r)[i];
        assert(step_fits(r, k, s1[i]));
        assert(step_fits(r, k, s2[i]));
    }
}

/// Where the output directory leaves no choice of separator (it is empty or
/// ends in `/`), and every output file name is relative, the steps of a
/// request are one list: each output path is the directory text followed by
/// the file name.
pub proof fn law_plan_unique(
    r: EncodeRequestView,
    s1: Seq<(Seq<char>, Seq<Seq<char>>)>,
    s2: Seq<(Seq<char>, Seq<Seq<char>>)>,
)
    requires
        plan_fits(r, s1),
        plan_fits(r, s2),
        r.out_dir.len() == 0 || r.out_dir.last() == '/',
        !verbatim(r.out_dir),
        forall|i: int|
            0 <= i < wanted_outputs(r).len() ==> relative_name(
                output_file(r, #[trigger] wanted_outputs(r)[i]),
            ),
    ensures
        s1 == s2,
        forall|i: int|
            0 <= i < s1.len() ==> #[trigger] s1[i].1.last() == r.out_dir + output_file(
                r,
                wanted_outputs(r)[i],
            ),
{
    assert forall|i: int|
        0 <= i < s1.len() implies #[trigger] s1[i].1.last() == r.out_dir + output_file(
            r,
            wanted_outputs(r)[i],
        ) && s2[i].1.last() == s1[i].1.last() by {
        let k = wanted_outputs(r)[i];
        assert(relative_name(output_file(r, k)));
        assert(step_fits(r, k, s1[i]));
        assert(step_fits(r, k, s2[i]));
        if r.out_dir.len() == 0 {
            assert(r.out_dir + output_file(r, k) =~= output_file(r, k));
        }
    }
    law_plan_fixed_by_outputs(r, s1, s2, Seq::empty(), Seq::empty());
}

/// Audio tracks are numbered 0, 1, 2, … in the order of the streams, which
/// is the numbering of ffmpeg's `-map 0:a:N`.
pub proof fn law_audio_ordinals(streams: Seq<JsonValue>)
    ensures
        forall|i: int| 0 <= i < scan(streams).audios.len() ==> #[trigger] scan(streams).audios[i].ordinal == i,
    decreases streams.len(),
{
    if streams.len() > 0 {
        law_audio_ordinals(streams.drop_last());
        let prev = scan(streams.drop_last());
        let cur = scan(streams);
        assert(cur == crate::probe::scan_step(prev, streams.last()));
        assert forall|i: int| 0 <= i < cur.audios.len() implies #[trigger] cur.audios[i].ordinal == i by {
            if i < prev.audios.len() {
                assert(prev.audios[i].ordinal == i);
            }
        }
    }
}

/// A lone track that does not look like commentary is the primary one, and
/// among several tracks the container's default one is.
pub proof fn law_primary_track(title_l: Seq<char>, lang_l: Seq<char>, is_default: bool, total: int)
    requires
        !has_sub(title_l, "comment"@),
        !has_sub(title_l, "评论"@),
        !has_sub(title_l, "解説"@),
        !has_sub(lang_l, "comment"@),
        total <= 1 || is_default,
    ensures
        recommendation_spec(title_l, lang_l, is_default, total).0 == "primary"@,
{
    reveal_strlit("commentary");
    reveal_strlit("comment");
    if has_sub(title_l, "commentary"@) {
        let i = choose|i: int| crate::text::occurs_at(title_l, "commentary"@, i);
        assert(title_l.subrange(i, i + 7) =~= "comment"@);
        assert(crate::text::occurs_at(title_l, "comment"@, i));
    }
}

/// Progress never passes 100% while the step being run is one of the plan's.
pub proof fn law_progress_bounded(stage_idx: int, stage_count: int, out_us: int, total_us: int)
    requires
        0 <= stage_idx < stage_count,
    ensures
        0 <= permyriad_spec(stage_idx, stage_count, out_us, total_us) <= 10000,
{
    let part = if total_us > 0 {
        let c = if out_us < 0 {
            0
        } else if out_us > total_us {
            total_us
        } else {
            out_us
        };
        assert(0 <= c * 10000 / total_us <= 10000) by (nonlinear_arith)
            requires
                0 <= c <= total_us,
                total_us > 0,
        ;
        c * 10000 / total_us
    } else {
        0
    };
    assert(0 <= (stage_idx * 10000 + part) / stage_count <= 10000) by (nonlinear_arith)
        requires
            0 <= stage_idx < stage_count,
            0 <= part <= 10000,
    ;
}


proof fn lemma_nat_text_digits(n: nat)
    ensures
        nat_text(n).len() > 0,
        all_digits(nat_text(n)),
        digits_value(nat_text(n)) == n,
    decreases n,
{
    if n >= 10 {
        lemma_nat_text_digits(n / 10);
        let s = nat_text(n / 10);
        let t = s.push(digit_char((n % 10) as int));
        assert(t.drop_last() =~= s);
        assert(t.last() == digit_char((n % 10) as int));
        assert(t == nat_text(n));
        let d = (n % 10) as int;
        assert((digit_char(d) as int) == d + 48);
        assert(digits_value(t) == digits_value(s) * 10 + d);
        assert((n / 10) * 10 + n % 10 == n);
        assert(digits_value(nat_text(n)) == n);
    } else {
        let t = nat_text(n);
        assert(t.drop_last() =~= Seq::<char>::empty());
        assert((digit_char(n as int) as int) == n + 48);
        assert(digits_value(t.drop_last()) == 0);
        assert(t.last() == digit_char(n as int));
        assert(digits_value(t) == n);
    }
}

proof fn lemma_digits_value_push(s: Seq<char>, c: char)
    ensures
        digits_value(s.push(c)) == digits_value(s) * 10 + ((c as int) - 48) as nat,
{
    assert(s.push(c).drop_last() =~= s);
}

/// The text of `m` milliseconds as seconds has the digits of the seconds
/// and then six fraction digits, the point after the seconds.
proof fn lemma_seconds_form(m: nat)
    ensures
        ({
            let q = m / 1000;
            let f = m % 1000;
            let frac = seq![
                digit_char((f / 100) as int),
                digit_char(((f / 10) % 10) as int),
                digit_char((f % 10) as int),
                '0',
                '0',
                '0',
            ];
            &&& sign_split(crate::encode::seconds6_text(m)) == (false, crate::encode::seconds6_text(m))
            &&& crate::text::decimal_form(crate::encode::seconds6_text(m), 3) == Some(
                (nat_text(q) + frac, nat_text(q).len() as int + 3),
            )
        }),
{
    let q = m / 1000;
    let f = m % 1000;
    let a = digit_char((f / 100) as int);
    let b = digit_char(((f / 10) % 10) as int);
    let c = digit_char((f % 10) as int);
    let int_part = nat_text(q);
    let frac = seq![a, b, c, '0', '0', '0'];
    let text = crate::encode::seconds6_text(m);
    lemma_nat_text_digits(q);
    assert(text == int_part + seq!['.'] + frac);
    assert(crate::text::is_digit(int_part[0]));
    assert(text[0] == int_part[0]);
    assert(sign_split(text) == (false, text));
    assert forall|k: int| 0 <= k < text.len() implies text[k] != 'e' && text[k] != 'E' by {
        if k < int_part.len() {
            assert(text[k] == int_part[k]);
            assert(crate::text::is_digit(int_part[k]));
        } else if k > int_part.len() {
            assert(text[k] == frac[k - int_part.len() - 1]);
        }
    }
    crate::text::lemma_exp_mark_at(text, text.len() as int);
    assert(text.take(text.len() as int) =~= text);
    assert forall|k: int| 0 <= k < int_part.len() implies text[k] != '.' by {
        assert(text[k] == int_part[k]);
        assert(crate::text::is_digit(int_part[k]));
    }
    crate::text::lemma_char_pos_at(text, '.', int_part.len() as int);
    assert(text.take(int_part.len() as int) =~= int_part);
    assert(text.skip(int_part.len() as int + 1) =~= frac);
    assert(all_digits(frac));
}

/// Six fraction digits ending in three zeros, read to three places, give
/// the milliseconds exactly.
proof fn lemma_seconds_value(m: nat)
    ensures
        ({
            let q = m / 1000;
            let f = m % 1000;
            let frac = seq![
                digit_char((f / 100) as int),
                digit_char(((f / 10) % 10) as int),
                digit_char((f % 10) as int),
                '0',
                '0',
                '0',
            ];
            crate::text::scaled_magnitude(nat_text(q) + frac, nat_text(q).len() as int + 3) == m
        }),
{
    let q = m / 1000;
    let f = m % 1000;
    let a = digit_char((f / 100) as int);
    let b = digit_char(((f / 10) % 10) as int);
    let c = digit_char((f % 10) as int);
    let int_part = nat_text(q);
    let frac = seq![a, b, c, '0', '0', '0'];
    lemma_nat_text_digits(q);
    let dg = int_part + frac;
    let kk: int = int_part.len() as int + 3;
    assert(pad_frac(dg, kk as nat) =~= int_part + seq![a, b, c]);
    assert(dg[kk] == '0');
    assert(!crate::text::rounds_up(dg, kk as nat));
    let joined = int_part + seq![a, b, c];
    assert(joined =~= int_part.push(a).push(b).push(c));
    lemma_digits_value_push(int_part, a);
    lemma_digits_value_push(int_part.push(a), b);
    lemma_digits_value_push(int_part.push(a).push(b), c);
    assert(m == q * 1000 + (f / 100) * 100 + ((f / 10) % 10) * 10 + f % 10);
}

/// What the export writes reads back as the measured offset: the silence
/// length of `adelay` as an integer, the cut of `atrim` as seconds read to
/// the millisecond. (The one offset left out is the most negative `i64`,
/// whose magnitude is no `i64`.)
pub proof fn law_written_offsets_read_back(d: int)
    requires
        i64::MIN < d <= i64::MAX,
    ensures
        d > 0 ==> parse_i64_spec(int_text(d)) == Some(d),
        d < 0 ==> parse_scaled_spec(crate::encode::seconds6_text((-d) as nat), 3) == Some(-d),
{
    if d > 0 {
        lemma_nat_text_digits(d as nat);
        let t = nat_text(d as nat);
        assert(crate::text::is_digit(t[0]));
        assert(sign_split(t) == (false, t));
    } else if d < 0 {
        lemma_seconds_form((-d) as nat);
        lemma_seconds_value((-d) as nat);
    }
}

/// A track whose lower-case title mentions "comment", "评论" or "解説", or
/// whose language tag mentions "comment", is recommended as a commentary
/// track, however many tracks there are and whichever is the default; no
/// other track is, and among several tracks one that is neither commentary
/// nor the default is an alternate.
pub proof fn law_commentary_tracks(title_l: Seq<char>, lang_l: Seq<char>, is_default: bool, total: int)
    ensures
        has_sub(title_l, "comment"@) ==> recommendation_spec(title_l, lang_l, is_default, total) == (
        "commentary"@, "疑似评论音轨"@),
        has_sub(title_l, "评论"@) ==> recommendation_spec(title_l, lang_l, is_default, total) == (
        "commentary"@, "疑似评论音轨"@),
        has_sub(title_l, "解説"@) ==> recommendation_spec(title_l, lang_l, is_default, total) == (
        "commentary"@, "疑似评论音轨"@),
        has_sub(lang_l, "comment"@) ==> recommendation_spec(title_l, lang_l, is_default, total) == (
        "commentary"@, "疑似评论音轨"@),
        !has_sub(title_l, "comment"@) && !has_sub(title_l, "评论"@) && !has_sub(title_l, "解説"@)
            && !has_sub(lang_l, "comment"@) ==> recommendation_spec(
            title_l,
            lang_l,
            is_default,
            total,
        ).0 != "commentary"@,
        !has_sub(title_l, "comment"@) && !has_sub(title_l, "评论"@) && !has_sub(title_l, "解説"@)
            && !has_sub(lang_l, "comment"@) && total > 1 && !is_default ==> recommendation_spec(
            title_l,
            lang_l,
            is_default,
            total,
        ) == ("alternate"@, "备选音轨"@),
{
    reveal_strlit("commentary");
    reveal_strlit("comment");
    reveal_strlit("primary");
    reveal_strlit("alternate");
    assert("primary"@.len() != "commentary"@.len());
    assert("alternate"@.len() != "commentary"@.len());
    if has_sub(title_l, "commentary"@) {
        let i = choose|i: int| crate::text::occurs_at(title_l, "commentary"@, i);
        assert(title_l.subrange(i, i + 7) =~= "comment"@);
        assert(crate::text::occurs_at(title_l, "comment"@, i));
    }
}

/// The audio step extracts the chosen track: its options start with
/// `-map 0:a:N` for the track's position `N` among the audio streams (the
/// first track for a negative position), and end with the output path.
pub proof fn law_audio_maps_chosen_track(r: EncodeRequestView, out: Seq<char>)
    ensures
        crate::encode::audio_args_spec(r, out)[0] == "-map"@,
        r.audio_ordinal >= 0 ==> crate::encode::audio_args_spec(r, out)[1] == "0:a:"@ + int_text(
            r.audio_ordinal,
        ),
        r.audio_ordinal < 0 ==> crate::encode::audio_args_spec(r, out)[1] == "0:a:"@ + int_text(0),
        crate::encode::audio_args_spec(r, out).last() == out,
{
}

/// Loading settings keeps every value that was set and gives every unset
/// one its default: 720p and CRF 30 for the preview, CRF 18 for the full
/// resolution, FLAC, stereo, 320k; paths and the last video pass through.
pub proof fn law_settings_kept_or_defaulted(s: SettingsView)
    ensures
        s.preview_height != 0 ==> with_defaults_spec(s).preview_height == s.preview_height,
        s.preview_height == 0 ==> with_defaults_spec(s).preview_height == 720,
        s.preview_crf != 0 ==> with_defaults_spec(s).preview_crf == s.preview_crf,
        s.preview_crf == 0 ==> with_defaults_spec(s).preview_crf == 30,
        s.high_crf != 0 ==> with_defaults_spec(s).high_crf == s.high_crf,
        s.high_crf == 0 ==> with_defaults_spec(s).high_crf == 18,
        s.audio_codec.len() != 0 ==> with_defaults_spec(s).audio_codec == s.audio_codec,
        s.audio_codec.len() == 0 ==> with_defaults_spec(s).audio_codec == "flac"@,
        s.audio_mode.len() != 0 ==> with_defaults_spec(s).audio_mode == s.audio_mode,
        s.audio_mode.len() == 0 ==> with_defaults_spec(s).audio_mode == "stereo"@,
        s.audio_bitrate.len() != 0 ==> with_defaults_spec(s).audio_bitrate == s.audio_bitrate,
        s.audio_bitrate.len() == 0 ==> with_defaults_spec(s).audio_bitrate == "320k"@,
        with_defaults_spec(s).ffmpeg_path == s.ffmpeg_path,
        with_defaults_spec(s).ffprobe_path == s.ffprobe_path,
        with_defaults_spec(s).mpv_path == s.mpv_path,
        with_defaults_spec(s).out_dir == s.out_dir,
        with_defaults_spec(s).last_video == s.last_video,
{
}


/// The full-resolution video is encoded at the request's own high-quality
/// CRF (at least 1), whatever the preview's CRF: its options hold `-crf`,
/// and every `-crf` among them is followed by that value.
pub proof fn law_high_crf(r: EncodeRequestView, out: Seq<char>)
    ensures
        ({
            let a = crate::encode::high_args_spec(r, out);
            let crf: nat = if r.high_crf >= 1 {
                r.high_crf
            } else {
                1
            };
            &&& exists|i: int| 0 <= i < a.len() - 1 && #[trigger] a[i] == "-crf"@
            &&& forall|i: int|
                0 <= i < a.len() - 1 && #[trigger] a[i] == "-crf"@ ==> a[i + 1] == nat_text(crf)
        }),
{
    let a = crate::encode::high_args_spec(r, out);
    let crf: nat = if r.high_crf >= 1 {
        r.high_crf
    } else {
        1
    };
    reveal_strlit("-crf");
    lemma_nat_text_digits(crf);
    assert(a[6] == "-crf"@);
    assert forall|i: int| 0 <= i < a.len() - 1 && #[trigger] a[i] == "-crf"@ implies a[i + 1]
        == nat_text(crf) by {
        if i != 6 {
            reveal_strlit("-map");
            reveal_strlit("0:v:0");
            reveal_strlit("-c:v");
            reveal_strlit("libx264");
            reveal_strlit("-preset");
            reveal_strlit("medium");
            reveal_strlit("-pix_fmt");
            reveal_strlit("yuv420p");
            reveal_strlit("-an");
            reveal_strlit("-sn");
            reveal_strlit("-dn");
            reveal_strlit("-movflags");
            reveal_strlit("+faststart");
            reveal_strlit("-y");
            assert("-crf"@[0] == '-' && "-crf"@[2] == 'r');
            if i == 7 {
                assert(crate::text::is_digit(a[7][0]));
            } else {
                assert(a[i].len() != 4 || a[i][2] != 'r');
            }
        }
    }
}

/// The preview is encoded at the request's own preview CRF (at least 1),
/// whatever the full-resolution CRF: its options hold `-crf`, and every
/// `-crf` among them is followed by that value.
pub proof fn law_preview_crf(r: EncodeRequestView, out: Seq<char>)
    ensures
        ({
            let a = crate::encode::preview_args_spec(r, out);
            let crf: nat = if r.preview_crf >= 1 {
                r.preview_crf
            } else {
                1
            };
            &&& exists|i: int| 0 <= i < a.len() - 1 && #[trigger] a[i] == "-crf"@
            &&& forall|i: int|
                0 <= i < a.len() - 1 && #[trigger] a[i] == "-crf"@ ==> a[i + 1] == nat_text(crf)
        }),
{
    let a = crate::encode::preview_args_spec(r, out);
    let crf: nat = if r.preview_crf >= 1 {
        r.preview_crf
    } else {
        1
    };
    reveal_strlit("-crf");
    lemma_nat_text_digits(crf);
    assert(a[8] == "-crf"@);
    assert forall|i: int| 0 <= i < a.len() - 1 && #[trigger] a[i] == "-crf"@ implies a[i + 1]
        == nat_text(crf) by {
        if i != 8 {
            reveal_strlit("-map");
            reveal_strlit("0:v:0");
            reveal_strlit("-vf");
            reveal_strlit("scale=-2:");
            reveal_strlit("-c:v");
            reveal_strlit("libx264");
            reveal_strlit("-preset");
            reveal_strlit("veryfast");
            reveal_strlit("-g");
            reveal_strlit("24");
            reveal_strlit("-pix_fmt");
            reveal_strlit("yuv420p");
            reveal_strlit("-an");
            reveal_strlit("-sn");
            reveal_strlit("-dn");
            reveal_strlit("-movflags");
            reveal_strlit("+faststart");
            reveal_strlit("-y");
            assert("-crf"@[0] == '-' && "-crf"@[2] == 'r');
            if i == 9 {
                assert(crate::text::is_digit(a[9][0]));
            } else if i == 3 {
                assert(a[3][0] == 's');
            } else {
                assert(a[i].len() != 4 || a[i][2] != 'r');
            }
        }
    }
}

/// A number text `q.frac` with a plain integer part and digits after the
/// point has those digits, and its point after the integer part, moved on
/// by `scale` places.
proof fn lemma_point_text_form(q: nat, frac: Seq<char>, scale: nat)
    requires
        all_digits(frac),
    ensures
        sign_split(nat_text(q) + seq!['.'] + frac) == (false, nat_text(q) + seq!['.'] + frac),
        crate::text::decimal_form(nat_text(q) + seq!['.'] + frac, scale) == Some(
            (nat_text(q) + frac, nat_text(q).len() as int + scale),
        ),
{
    let int_part = nat_text(q);
    let text = int_part + seq!['.'] + frac;
    lemma_nat_text_digits(q);
    assert(crate::text::is_digit(int_part[0]));
    assert(text[0] == int_part[0]);
    assert(sign_split(text) == (false, text));
    assert forall|k: int| 0 <= k < text.len() implies text[k] != 'e' && text[k] != 'E' by {
        if k < int_part.len() {
            assert(text[k] == int_part[k]);
            assert(crate::text::is_digit(int_part[k]));
        } else if k > int_part.len() {
            assert(text[k] == frac[k - int_part.len() - 1]);
            assert(crate::text::is_digit(frac[k - int_part.len() - 1]));
        }
    }
    crate::text::lemma_exp_mark_at(text, text.len() as int);
    assert(text.take(text.len() as int) =~= text);
    assert forall|k: int| 0 <= k < int_part.len() implies text[k] != '.' by {
        assert(text[k] == int_part[k]);
        assert(crate::text::is_digit(int_part[k]));
    }
    crate::text::lemma_char_pos_at(text, '.', int_part.len() as int);
    assert(text.take(int_part.len() as int) =~= int_part);
    assert(text.skip(int_part.len() as int + 1) =~= frac);
}

/// The listening start is written so that it reads back as the start:
/// mpv's third argument is `--start=` and a number of seconds that, read to
/// the millisecond, is the requested start (0 for a negative one).
pub proof fn law_listen_start_reads_back(video: Seq<char>, stream_index: int, start_ms: int)
    requires
        start_ms <= i64::MAX,
    ensures
        crate::player::play_args_spec(video, stream_index, start_ms)[2].take(8) == "--start="@,
        parse_scaled_spec(crate::player::play_args_spec(video, stream_index, start_ms)[2].skip(8), 3)
            == Some(if start_ms > 0 {
            start_ms
        } else {
            0
        }),
{
    let m: nat = if start_ms > 0 {
        start_ms as nat
    } else {
        0
    };
    reveal_strlit("--start=");
    let t = crate::player::seconds3_text(m);
    let arg = crate::player::play_args_spec(video, stream_index, start_ms)[2];
    assert(arg == "--start="@ + t);
    assert(arg.take(8) =~= "--start="@);
    assert(arg.skip(8) =~= t);
    let q = m / 1000;
    let f = m % 1000;
    let a = digit_char((f / 100) as int);
    let b = digit_char(((f / 10) % 10) as int);
    let c = digit_char((f % 10) as int);
    let frac = seq![a, b, c];
    assert(t == nat_text(q) + seq!['.'] + frac);
    assert(all_digits(frac));
    lemma_point_text_form(q, frac, 3);
    let dg = nat_text(q) + frac;
    let kk: int = nat_text(q).len() as int + 3;
    assert(pad_frac(dg, kk as nat) =~= dg);
    assert(!crate::text::rounds_up(dg, kk as nat));
    assert(dg =~= nat_text(q).push(a).push(b).push(c));
    lemma_nat_text_digits(q);
    lemma_digits_value_push(nat_text(q), a);
    lemma_digits_value_push(nat_text(q).push(a), b);
    lemma_digits_value_push(nat_text(q).push(a).push(b), c);
    assert(m == q * 1000 + (f / 100) * 100 + ((f / 10) % 10) * 10 + f % 10);
}

} // verus!
