//! The command line that opens a source in mpv on a chosen audio track, for
//! listening before anything is written.

use crate::text::{digit_char, i64_text, int_text, nat_text, string_of, u64_text};
use vstd::prelude::*;

verus! {

/// `ms` milliseconds written as seconds with three decimals.
pub open spec fn seconds3_text(ms: nat) -> Seq<char> {
    let f = ms % 1000;
    nat_text(ms / 1000) + seq![
        '.',
        digit_char((f / 100) as int),
        digit_char(((f / 10) % 10) as int),
        digit_char((f % 10) as int),
    ]
}

/// The mpv arguments: the source, the track (`--aid` counts from 1, the
/// given index from 0), the start position (not before 0), a window that
/// stays open with its controls, and a title naming the track.
pub open spec fn play_args_spec(video: Seq<char>, stream_index: int, start_ms: int) -> Seq<Seq<char>> {
    let start: nat = if start_ms > 0 {
        start_ms as nat
    } else {
        0
    };
    seq![
        video,
        "--aid="@ + int_text(stream_index + 1),
        "--start="@ + seconds3_text(start),
        "--force-window=yes"@,
        "--keep-open=yes"@,
        "--osc=yes"@,
        "--title=TJ-VideoPrep 试听 - 音轨 "@ + int_text(stream_index),
    ]
}

/// `ms` milliseconds as seconds with three decimals.
pub fn seconds3(ms: u64) -> (r: String)
    ensures
        r@ == seconds3_text(ms as nat),
{
    let mut r = u64_text(ms / 1000);
    let f = ms % 1000;
    let mut v: Vec<char> = Vec::new();
    v.push('.');
    v.push((((f / 100) as u8) + 48u8) as char);
    v.push(((((f / 10) % 10) as u8) + 48u8) as char);
    v.push((((f % 10) as u8) + 48u8) as char);
    let tail = string_of(v.as_slice());
    r.append(tail.as_str());
    assert(tail@ =~= seq![
        '.',
        digit_char((f / 100) as int),
        digit_char(((f / 10) % 10) as int),
        digit_char((f % 10) as int),
    ]);
    r
}

/// The mpv arguments for listening to track `stream_index` of `video` from
/// `start_ms` milliseconds on.
pub fn mpv_play_args(video: &str, stream_index: i64, start_ms: i64) -> (r: Vec<String>)
    requires
        stream_index < i64::MAX,
    ensures
        r.deep_view() == play_args_spec(video@, stream_index as int, start_ms as int),
{
    let start: u64 = if start_ms > 0 {
        start_ms as u64
    } else {
        0
    };
    let mut v: Vec<String> = Vec::new();
    v.push(String::from_str(video));
    let mut aid = String::from_str("--aid=");
    aid.append(i64_text(stream_index + 1).as_str());
    v.push(aid);
    let mut st = String::from_str("--start=");
    st.append(seconds3(start).as_str());
    v.push(st);
    v.push(String::from_str("--force-window=yes"));
    v.push(String::from_str("--keep-open=yes"));
    v.push(String::from_str("--osc=yes"));
    let mut title = String::from_str("--title=TJ-VideoPrep 试听 - 音轨 ");
    title.append(i64_text(stream_index).as_str());
    v.push(title);
    assert(v.deep_view() =~= play_args_spec(video@, stream_index as int, start_ms as int));
    v
}

} // verus!
