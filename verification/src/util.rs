//! Small helpers: the package name of a repository URL and the clock.
use vstd::prelude::*;
use crate::text::{after_last, chars_after_last, chars_of, chars_replace_char, chars_trim_end_char,
    chars_trim_end_str, replace_char, string_of, trim, trim_end_char, trim_end_str, trim_ws};

verus! {

/// The package name that a repository URL stands for: the last path segment
/// of the URL with surrounding whitespace, trailing slashes and a trailing
/// `.git` removed (a `:`, as in `git@host:org/repo`, counts as a separator).
pub open spec fn repo_name_of(url: Seq<char>) -> Seq<char> {
    after_last(
        replace_char(trim_end_str(trim_end_char(trim_ws(url), '/'), ".git"@), ':', '/'),
        '/',
    )
}

/// The package name of a repository URL (see [`repo_name_of`]).
pub fn repo_name_from_url(url: &str) -> (r: String)
    ensures
        r@ == repo_name_of(url@),
{
    let t = trim(url);
    let v = chars_of(t.as_str());
    let v = chars_trim_end_char(&v, '/');
    let git = chars_of(".git");
    let v = chars_trim_end_str(&v, &git);
    let v = chars_replace_char(&v, ':', '/');
    let v = chars_after_last(&v, '/');
    string_of(&v)
}

/// The whole seconds elapsed since the Unix epoch by the system clock
/// (`SystemTime::now().duration_since(UNIX_EPOCH)`), or `None` when the clock
/// stands before the epoch. Nothing is stated of the value: it is the time.
#[verifier::external_body]
fn seconds_since_epoch() -> Option<u64> {
    match std::time::SystemTime::now().duration_since(std::time::UNIX_EPOCH) {
        Ok(d) => Some(d.as_secs()),
        Err(_) => None,
    }
}

/// The time stamp of a clock reading (`secs`: whole seconds since the Unix
/// epoch, `None` for a clock before the epoch): the seconds converted as
/// `as i64` converts them, 0 before the epoch.
pub fn timestamp_of(secs: Option<u64>) -> (r: i64)
    ensures
        r == match secs {
            Some(s) => s as i64,
            None => 0i64,
        },
{
    match secs {
        Some(s) => s as i64,
        None => 0,
    }
}

/// The current Unix time in seconds, 0 when the clock is before the epoch:
/// [`timestamp_of`] of the clock's reading. The reading is the time, so
/// nothing is stated of the value.
pub fn now_ts() -> i64 {
    timestamp_of(seconds_since_epoch())
}

} // verus!
