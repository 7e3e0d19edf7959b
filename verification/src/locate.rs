//! The locator's rules: which file names count as metadata files, and
//! which root directories are walked.
//!
//! The walk itself is filesystem work done by the caller; the rules that
//! drive it are decided here.

use vstd::prelude::*;
use vstd::string::StrSliceExecFns;
use vstd::string::StringExecFns;

verus! {

/// The suffix that marks a metadata file.
pub open spec fn metadata_suffix() -> Seq<char> {
    ".desktop"@
}

/// Whether `name` (a file name, not a full path) carries the metadata-file
/// extension: it ends in the suffix and the stem before it is non-empty.
pub open spec fn is_metadata_name(name: Seq<char>) -> bool {
    name.len() > metadata_suffix().len() && name.subrange(
        name.len() - metadata_suffix().len(),
        name.len() as int,
    ) == metadata_suffix()
}

/// Decides whether a file name carries the metadata extension.
pub fn is_metadata_file_name(name: &str) -> (r: bool)
    ensures
        r == is_metadata_name(name@),
{
    proof {
        reveal_strlit(".desktop");
    }
    let n = name.unicode_len();
    if n <= 8 {
        return false;
    }
    let tail = name.substring_char(n - 8, n);
    let r = tail.to_owned() == ".desktop".to_owned();
    proof {
        assert(tail@ == name@.subrange(n - 8, n as int));
    }
    r
}

/// The system-wide application-metadata directory, always walked.
pub open spec fn system_root() -> Seq<char> {
    "/usr/share/applications/"@
}

/// The per-user application-metadata directory, relative to a home
/// directory.
pub open spec fn user_suffix() -> Seq<char> {
    ".local/share/applications/"@
}

/// The per-user directory under `home`: the suffix joined with a path
/// separator unless `home` already ends in one (or is empty).
pub open spec fn user_root(home: Seq<char>) -> Seq<char> {
    if home.len() == 0 {
        user_suffix()
    } else if home.last() == '/' {
        home + user_suffix()
    } else {
        home + seq!['/'] + user_suffix()
    }
}

/// The ordered roots to walk: the system directory always, then the
/// per-user directory when a home directory is known.
pub fn root_directories(home: Option<&String>) -> (roots: Vec<String>)
    ensures
        match home {
            None => roots.deep_view() == seq![system_root()],
            Some(h) => roots.deep_view() == seq![system_root(), user_root(h@)],
        },
{
    let mut roots: Vec<String> = Vec::new();
    roots.push("/usr/share/applications/".to_owned());
    match home {
        None => {
            proof {
                assert(roots.deep_view() =~~= seq![system_root()]);
            }
        },
        Some(h) => {
            proof {
                reveal_strlit("/");
            }
            let n = h.as_str().unicode_len();
            let mut dir: String;
            if n == 0 {
                dir = ".local/share/applications/".to_owned();
            } else if h.as_str().get_char(n - 1) == '/' {
                dir = h.as_str().to_owned();
                dir.append(".local/share/applications/");
            } else {
                dir = h.as_str().to_owned();
                dir.append("/");
                dir.append(".local/share/applications/");
                proof {
                    assert("/"@ =~= seq!['/']);
                    assert(dir@ =~= h@ + seq!['/'] + user_suffix());
                }
            }
            proof {
                assert(dir@ == user_root(h@));
            }
            roots.push(dir);
            proof {
                assert(roots.deep_view() =~~= seq![system_root(), user_root(h@)]);
            }
        },
    }
    roots
}

} // verus!
