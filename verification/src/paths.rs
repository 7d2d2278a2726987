//! Joining directory and file names, through `std::path`.

use crate::text::{has_prefix, has_suffix};
use vstd::prelude::*;

verus! {

/// A plain file name: non-empty, neither `.` nor `..`, and free of the
/// characters `/`, `\` and `:` that could start a root, a prefix or a
/// further component on some platform.
pub open spec fn plain_name(f: Seq<char>) -> bool {
    &&& f.len() > 0
    &&& f != seq!['.']
    &&& f != seq!['.', '.']
    &&& forall|i: int| 0 <= i < f.len() ==> #[trigger] f[i] != '/' && f[i] != '\\' && f[i] != ':'
}

/// A directory written with a Windows verbatim prefix (`\\?\`), which
/// `Path::join` normalises.
pub open spec fn verbatim(d: Seq<char>) -> bool {
    has_prefix(d, seq!['\\', '\\', '?', '\\'])
}

/// A character after which a join always adds a separator, on every
/// platform: none of `/`, `\` and `:`.
pub open spec fn ordinary_end(c: char) -> bool {
    c != '/' && c != '\\' && c != ':'
}

/// `r` is `d` and `f` put together as `Path::join` does: `f` alone after an
/// empty directory; no separator after a trailing `/`; one separator (`/`,
/// or `\` on Windows) after an ordinary last character; after a trailing
/// `\` or `:` (a separator, or a drive, on Windows only) either none or one.
pub open spec fn joined_path(d: Seq<char>, f: Seq<char>, r: Seq<char>) -> bool {
    if d.len() == 0 {
        r == f
    } else if d.last() == '/' {
        r == d + f
    } else if ordinary_end(d.last()) {
        ||| r == d + seq!['/'] + f
        ||| r == d + seq!['\\'] + f
    } else {
        ||| r == d + f
        ||| r == d + seq!['/'] + f
        ||| r == d + seq!['\\'] + f
    }
}

/// A name that is relative on every platform: non-empty, not starting with
/// a separator (`/`, or `\` on Windows), and without the drive prefix
/// (`X:`) that Windows reads from its first two characters.
pub open spec fn relative_name(f: Seq<char>) -> bool {
    &&& f.len() > 0
    &&& f[0] != '/'
    &&& f[0] != '\\'
    &&& !(f.len() >= 2 && f[1] == ':')
}

/// Calls `Path::join` on `dir` and `file` and returns the result as text.
/// Claimed, as `PathBuf::push` documents and does, for a directory without
/// a verbatim prefix: the result ends with `file` (the file is appended, or,
/// where it is absolute or rooted, replaces the directory or all of it but
/// the prefix); for a relative file name, an empty directory gives the name
/// alone, and otherwise the result is the directory, a separator unless the
/// directory already ends in one (or is a bare drive such as `C:`), and the
/// name (see `joined_path`). Which separator, `/` or `\`, is the platform's
/// and is not stated; nor is the result under a verbatim directory, which
/// Windows normalises.
#[verifier::external_body]
pub(crate) fn join_path(dir: &str, file: &str) -> (r: String)
    ensures
        !verbatim(dir@) ==> has_suffix(r@, file@),
        relative_name(file@) && !verbatim(dir@) ==> joined_path(dir@, file@, r@),
{
    std::path::Path::new(dir).join(file).to_string_lossy().into_owned()
}

/// A path that starts with two separators, which Windows reads as a UNC or
/// device prefix.
pub open spec fn double_sep_start(path: Seq<char>) -> bool {
    path.len() >= 2 && (path[0] == '/' || path[0] == '\\') && (path[1] == '/' || path[1] == '\\')
}

/// `path` ends in `/` and then the plain name `f`.
pub open spec fn ends_in_name(path: Seq<char>, f: Seq<char>) -> bool {
    plain_name(f) && path.len() > f.len() && path.subrange(
        path.len() - f.len() - 1,
        path.len() as int,
    ) == seq!['/'] + f
}

/// `path` ends in `\` and then the plain name `f`.
pub open spec fn ends_in_backslash_name(path: Seq<char>, f: Seq<char>) -> bool {
    plain_name(f) && path.len() > f.len() && path.subrange(
        path.len() - f.len() - 1,
        path.len() as int,
    ) == seq!['\\'] + f
}

/// The text after the last `/` of `s` (all of `s` when it has none).
pub open spec fn after_last_slash(s: Seq<char>) -> Seq<char>
    decreases s.len(),
{
    if s.len() == 0 {
        s
    } else if s.last() == '/' {
        Seq::empty()
    } else {
        after_last_slash(s.drop_last()).push(s.last())
    }
}

/// Calls `Path::file_name` on `path` (an empty text where there is none).
/// Claimed, for what holds on every platform: a plain name is its own file
/// name; a path that does not start with two separators (a UNC or device
/// prefix on Windows) and ends in `/` and a plain name has that name as its
/// file name; one that ends in `\` and a plain name has that name (Windows,
/// where `\` separates) or the text after its last `/` (elsewhere, where
/// `\` is an ordinary character). Nothing is stated of other paths.
#[verifier::external_body]
pub(crate) fn file_name_of(path: &str) -> (r: String)
    ensures
        plain_name(path@) ==> r@ == path@,
        forall|f: Seq<char>|
            #[trigger] ends_in_name(path@, f) && !double_sep_start(path@) ==> r@ == f,
        forall|f: Seq<char>|
            #[trigger] ends_in_backslash_name(path@, f) && !double_sep_start(path@) ==> r@ == f
                || r@ == after_last_slash(path@),
{
    match std::path::Path::new(path).file_name() {
        Some(n) => n.to_string_lossy().into_owned(),
        None => String::new(),
    }
}


/// What `join_path` promises of `r`, made from `d` and `f`.
pub open spec fn joined_guarded(d: Seq<char>, f: Seq<char>, r: Seq<char>) -> bool {
    plain_name(f) && !verbatim(d) ==> joined_path(d, f, r)
}

/// `steps[i]` is what joining the first `i + 1` of `names` onto `base`
/// gave, each join as `join_path` promises.
pub open spec fn join_chain(base: Seq<char>, names: Seq<Seq<char>>, steps: Seq<Seq<char>>) -> bool {
    &&& steps.len() == names.len()
    &&& forall|i: int|
        0 <= i < names.len() ==> joined_guarded(
            if i == 0 {
                base
            } else {
                steps[i - 1]
            },
            names[i],
            #[trigger] steps[i],
        )
}

/// `r` is `base` with `names` joined on one after the other, each join as
/// `join_path` promises.
pub open spec fn path_under(base: Seq<char>, names: Seq<Seq<char>>, r: Seq<char>) -> bool {
    exists|steps: Seq<Seq<char>>|
        #[trigger] join_chain(base, names, steps) && r == (if names.len() == 0 {
            base
        } else {
            steps.last()
        })
}

/// `base` with `names` joined on one after the other.
pub fn join_names(base: &str, names: &Vec<String>) -> (r: String)
    ensures
        path_under(base@, names.deep_view(), r@),
{
    let mut cur = String::from_str(base);
    let ghost mut steps: Seq<Seq<char>> = Seq::empty();
    let mut i: usize = 0;
    while i < names.len()
        invariant
            i <= names.len(),
            join_chain(base@, names.deep_view().take(i as int), steps),
            cur@ == (if i == 0 {
                base@
            } else {
                steps.last()
            }),
        decreases names.len() - i,
    {
        let next = join_path(cur.as_str(), names[i].as_str());
        proof {
            let t = names.deep_view().take(i + 1);
            let old_steps = steps;
            steps = steps.push(next@);
            assert(t[i as int] == names@[i as int]@);
            assert forall|j: int| 0 <= j < t.len() implies joined_guarded(
                if j == 0 {
                    base@
                } else {
                    steps[j - 1]
                },
                t[j],
                #[trigger] steps[j],
            ) by {
                if j < i {
                    assert(t[j] == names.deep_view().take(i as int)[j]);
                    assert(steps[j] == old_steps[j]);
                    if j > 0 {
                        assert(steps[j - 1] == old_steps[j - 1]);
                    }
                }
            }
        }
        cur = next;
        i += 1;
    }
    assert(names.deep_view().take(names.len() as int) =~= names.deep_view());
    assert(join_chain(base@, names.deep_view(), steps));
    cur
}

} // verus!
