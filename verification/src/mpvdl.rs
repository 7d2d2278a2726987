//! Choosing the mpv build to download from a release listing.

use crate::json::{array_field, array_of, json_parse_of, parse_json, str_field, str_of, JsonValue};
use crate::text::{
    contains, ends_with, eq_ignore_ascii_case, eq_ignore_ascii_case_spec, has_prefix, has_sub, has_suffix,
    starts_with,
};
use vstd::prelude::*;

verus! {

/// Where the builds are published, for the user to fetch by hand.
pub open spec fn download_page_spec() -> Seq<char> {
    "https://github.com/zhongfly/mpv-winbuild/releases/latest"@
}

/// The release page of the mpv builds.
pub fn download_page() -> (r: String)
    ensures
        r@ == download_page_spec(),
{
    String::from_str("https://github.com/zhongfly/mpv-winbuild/releases/latest")
}

/// A general x86_64 build: an `mpv-….7z` archive that is neither a debug
/// nor a development build, nor one for aarch64 or for x86-64-v3 CPUs.
pub open spec fn asset_ok(name: Seq<char>) -> bool {
    &&& has_prefix(name, "mpv-"@)
    &&& has_suffix(name, ".7z"@)
    &&& !has_sub(name, "debug"@)
    &&& !has_sub(name, "dev-"@)
    &&& !has_sub(name, "aarch64"@)
    &&& !has_sub(name, "-v3-"@)
    &&& has_sub(name, "x86_64"@)
}

/// Whether an archive name is a general x86_64 build.
pub fn is_wanted_asset(name: &str) -> (r: bool)
    ensures
        r == asset_ok(name@),
{
    if !starts_with(name, "mpv-") || !ends_with(name, ".7z") {
        return false;
    }
    if contains(name, "debug") || contains(name, "dev-") {
        return false;
    }
    if contains(name, "aarch64") {
        return false;
    }
    if contains(name, "-v3-") {
        return false;
    }
    contains(name, "x86_64")
}

/// The name and download address of the first wanted build from position
/// `k` on.
pub open spec fn first_asset(assets: Seq<JsonValue>, k: int) -> Option<(Seq<char>, Seq<char>)>
    decreases assets.len() - k,
{
    if k < 0 || k >= assets.len() {
        None
    } else if asset_ok(str_field(assets[k], "name"@)) {
        Some((str_field(assets[k], "name"@), str_field(assets[k], "browser_download_url"@)))
    } else {
        first_asset(assets, k + 1)
    }
}

/// The build to download from a release listing: the first asset whose name
/// is a general x86_64 build, as (name, address); an error when none is.
pub fn latest_mpv_asset(release: &JsonValue) -> (r: Result<(String, String), String>)
    ensures
        match r {
            Ok((name, url)) => first_asset(array_field(*release, "assets"@), 0) == Some(
                (name@, url@),
            ),
            Err(e) => first_asset(array_field(*release, "assets"@), 0) is None && e@
                == "未在最新发布中找到 x86_64 的 mpv 包"@,
        },
{
    let assets = array_of(release, "assets");
    let mut i: usize = 0;
    while i < assets.len()
        invariant
            i <= assets@.len(),
            assets@ == array_field(*release, "assets"@),
            first_asset(assets@, 0) == first_asset(assets@, i as int),
        decreases assets.len() - i,
    {
        let name = str_of(&assets[i], "name");
        if is_wanted_asset(name.as_str()) {
            let url = str_of(&assets[i], "browser_download_url");
            return Ok((name, url));
        }
        i += 1;
    }
    Err(String::from_str("未在最新发布中找到 x86_64 的 mpv 包"))
}

/// The build to download from the text of a release listing: the parse
/// error when the text is not JSON (worded as the HTTP client words a body
/// it cannot read as JSON), else as `latest_mpv_asset` chooses.
pub fn latest_mpv_asset_from_text(text: &str) -> (r: Result<(String, String), String>)
    ensures
        match json_parse_of(text@) {
            Err(e) => r matches Err(m) && m@ == "解析 GitHub 响应失败: Failed to read JSON: "@ + e,
            Ok(release) => match first_asset(array_field(release, "assets"@), 0) {
                Some((n, u)) => r matches Ok((name, url)) && name@ == n && url@ == u,
                None => r matches Err(m) && m@ == "未在最新发布中找到 x86_64 的 mpv 包"@,
            },
        },
{
    match parse_json(text) {
        Err(e) => {
            let mut m = String::from_str("解析 GitHub 响应失败: Failed to read JSON: ");
            m.append(e.as_str());
            Err(m)
        },
        Ok(release) => latest_mpv_asset(&release),
    }
}

/// One entry of a directory listing, as the unpacked archive is searched.
pub struct ListedEntry {
    pub name: String,
    pub is_file: bool,
    pub is_dir: bool,
}

/// What to do with one directory of the search for the mpv executable:
/// take the entry at this position, or go on into these subdirectories.
pub enum ListingStep {
    Found(usize),
    Descend(Vec<usize>),
}

/// How many directory levels below the unpacked archive are searched.
pub open spec fn search_depth_limit() -> int {
    4
}

/// Whether a directory `depth` levels below the unpacked archive is searched.
pub fn within_search_depth(depth: usize) -> (r: bool)
    ensures
        r == (depth <= search_depth_limit()),
{
    depth <= 4
}

/// A file whose name is `target`, ignoring ASCII case.
pub open spec fn matching_file(e: ListedEntry, target: Seq<char>) -> bool {
    e.is_file && eq_ignore_ascii_case_spec(e.name@, target)
}

/// The position of the first matching file from position `k` on.
pub open spec fn first_matching(es: Seq<ListedEntry>, target: Seq<char>, k: int) -> Option<int>
    decreases es.len() - k,
{
    if k < 0 || k >= es.len() {
        None
    } else if matching_file(es[k], target) {
        Some(k)
    } else {
        first_matching(es, target, k + 1)
    }
}

/// The positions, in order, of the directories (that are not files) among
/// the first `n` entries.
pub open spec fn dirs_upto(es: Seq<ListedEntry>, n: int) -> Seq<int>
    decreases n,
{
    if n <= 0 {
        Seq::empty()
    } else {
        dirs_upto(es, n - 1) + (if !es[n - 1].is_file && es[n - 1].is_dir {
            seq![n - 1]
        } else {
            Seq::empty()
        })
    }
}

/// The step for one listed directory: the first file named `target`
/// (ignoring ASCII case), else every subdirectory, in listing order.
pub fn listing_step(entries: &Vec<ListedEntry>, target: &str) -> (r: ListingStep)
    ensures
        match first_matching(entries@, target@, 0) {
            Some(i) => r matches ListingStep::Found(j) && j == i,
            None => r matches ListingStep::Descend(ds) && ds@.map_values(|x: usize| x as int)
                == dirs_upto(entries@, entries@.len() as int),
        },
{
    let mut dirs: Vec<usize> = Vec::new();
    let mut i: usize = 0;
    while i < entries.len()
        invariant
            i <= entries@.len(),
            first_matching(entries@, target@, 0) == first_matching(entries@, target@, i as int),
            dirs@.map_values(|x: usize| x as int) == dirs_upto(entries@, i as int),
        decreases entries.len() - i,
    {
        let e = &entries[i];
        if e.is_file {
            if eq_ignore_ascii_case(e.name.as_str(), target) {
                return ListingStep::Found(i);
            }
        } else if e.is_dir {
            dirs.push(i);
        }
        assert(dirs@.map_values(|x: usize| x as int) =~= dirs_upto(entries@, i + 1));
        i += 1;
    }
    ListingStep::Descend(dirs)
}

} // verus!
