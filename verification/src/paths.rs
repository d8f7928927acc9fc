//! Where ssm keeps its files: `~/.config/ssm/` (or the directory named by
//! `DOTS_SSM_DIR`), and the user's `~/.ssh/config`.
//!
//! Paths are handled as text; joining follows `Path::join` for relative
//! components.

use vstd::prelude::*;

use crate::text;

verus! {

/// `Path::join`: an absolute `rel` replaces `base`; otherwise `rel` is
/// appended, with a `/` in between unless `base` is empty or already ends in
/// one.
pub open spec fn join_spec(base: Seq<char>, rel: Seq<char>) -> Seq<char> {
    if rel.len() > 0 && rel[0] == '/' {
        rel
    } else if base.len() == 0 || base.last() == '/' {
        base + rel
    } else {
        base + seq!['/'] + rel
    }
}

/// `base` joined with `rel`.
pub fn join(base: &str, rel: &str) -> (r: String)
    ensures
        r@ == join_spec(base@, rel@),
{
    let b = text::chars_of(base);
    let rv = text::chars_of(rel);
    if rv.len() > 0 && rv[0] == '/' {
        return text::to_owned_string(rel);
    }
    let mut out = text::to_owned_string(base);
    if !(b.len() == 0 || b[b.len() - 1] == '/') {
        text::push_char(&mut out, '/');
    }
    text::push_str(&mut out, rel);
    proof {
        if !(b@.len() == 0 || b@.last() == '/') {
            assert(out@ =~= base@ + seq!['/'] + rel@);
        }
    }
    out
}

/// The directory that stands in for a missing home directory.
pub open spec fn home_or_tmp(home: Option<Seq<char>>) -> Seq<char> {
    match home {
        Some(h) => h,
        None => "/tmp"@,
    }
}

/// `dirs::home_dir`: the user's home directory, if one can be found. The
/// answer depends on the environment (`$HOME`, then the password database);
/// the contract claims only that a found home is never empty. Paths are text
/// here, so a home directory that is not valid UTF-8 is converted lossily.
#[verifier::external_body]
pub(crate) fn home_dir() -> (r: Option<String>)
    ensures
        r matches Some(h) ==> h@.len() > 0,
{
    dirs::home_dir().map(|p| p.to_string_lossy().into_owned())
}

/// What a home-directory lookup can give: nothing, or a non-empty path.
pub open spec fn found_home(h: Option<Seq<char>>) -> bool {
    h is None || h->Some_0.len() > 0
}

/// `rel` under the home directory `home`, or under `/tmp` without one.
pub fn under_home(home: Option<String>, rel: &str) -> (r: String)
    ensures
        r@ == join_spec(home_or_tmp(crate::storage::opt_chars(home)), rel@),
{
    match home {
        Some(h) => join(h.as_str(), rel),
        None => join("/tmp", rel),
    }
}

/// A file of ssm's own: `file` in `dir_override` when one is given (the
/// `DOTS_SSM_DIR` directory), else in `~/.config/ssm/`.
pub open spec fn ssm_file_spec(
    dir_override: Option<Seq<char>>,
    home: Option<Seq<char>>,
    file: Seq<char>,
    home_rel: Seq<char>,
) -> Seq<char> {
    match dir_override {
        Some(d) => join_spec(d, file),
        None => join_spec(home_or_tmp(home), home_rel),
    }
}

/// One of ssm's own files, `file` under `dir_override` or `home_rel` under
/// the home directory.
pub fn ssm_file(dir_override: Option<String>, file: &str, home_rel: &str) -> (r: String)
    ensures
        exists|h: Option<Seq<char>>|
            found_home(h) && r@ == ssm_file_spec(crate::storage::opt_chars(dir_override), h, file@, home_rel@),
{
    match dir_override {
        Some(d) => {
            let r = join(d.as_str(), file);
            assert(found_home(None) && r@ == ssm_file_spec(crate::storage::opt_chars(Some(d)), None, file@, home_rel@));
            r
        },
        None => {
            let h = home_dir();
            let r = under_home(h, home_rel);
            assert(found_home(crate::storage::opt_chars(h)) && r@ == ssm_file_spec(None, crate::storage::opt_chars(h), file@, home_rel@));
            r
        },
    }
}

} // verus!
