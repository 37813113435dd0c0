//! What the HTTP service decides.

use vstd::prelude::*;
use crate::errors::{AppError, AppResult};
use crate::text::{chars_of, push_char};

pub mod download;
pub mod util;

verus! {

/// The header that lets a browser keep an image for an hour.
pub const CACHE_CONTROL: &'static str = "public,immutable,max-age=3600";

/// The seconds for which a browser may keep the answer to a preflight.
pub const CORS_MAX_AGE: usize = 3600;

/// The message of the error for a download without a place to put it.
pub open spec fn no_download_to_message() -> Seq<char> {
    "Server option `download-to` is not given"@
}

/// `suffix` under the directory `base`, as a path is extended: a suffix
/// that begins at the root stands alone, as does one under no base; else a
/// `/` joins the two, unless the base ends in one.
pub open spec fn join_path_spec(base: Seq<char>, suffix: Seq<char>) -> Seq<char> {
    if (suffix.len() > 0 && suffix[0] == '/') || base.len() == 0 {
        suffix
    } else if base.last() == '/' {
        base + suffix
    } else {
        base + seq!['/'] + suffix
    }
}

/// The content type of an image of the format named `format`.
pub open spec fn content_type_spec(format: Seq<char>) -> Seq<char> {
    "image/"@ + format
}

/// `suffix` under the directory `base`.
pub fn join_path(base: &str, suffix: &str) -> (path: String)
    ensures
        path@ == join_path_spec(base@, suffix@),
{
    let b = chars_of(base);
    let s = chars_of(suffix);
    if (s.len() > 0 && s[0] == '/') || b.len() == 0 {
        suffix.to_owned()
    } else {
        let mut path = base.to_owned();
        if b[b.len() - 1] != '/' {
            push_char(&mut path, '/');
        }
        path.append(suffix);
        assert(path@ =~= join_path_spec(base@, suffix@));
        path
    }
}

/// Where a download asked for as `to` is written: under the directory
/// `download_to`, each name of `to` shortened to what a file system takes.
/// Without such a directory downloads are refused.
pub fn download_target(download_to: Option<&str>, to: &str) -> (result: AppResult<String>)
    ensures
        match download_to {
            Some(directory) => result matches Ok(path) && path@ == join_path_spec(
                directory@,
                util::shorten_path_from(to@, 0, util::MAX_NAME as nat),
            ),
            None => result matches Err(AppError::Standard(message)) && message@
                == no_download_to_message(),
        },
{
    match download_to {
        Some(directory) => {
            let suffix = util::shorten_path(to);
            Ok(join_path(directory, suffix.as_str()))
        },
        None => Err(AppError::Standard("Server option `download-to` is not given".to_owned())),
    }
}

/// The content type under which an image of the format `format` is served.
pub fn content_type(format: &str) -> (value: String)
    ensures
        value@ == content_type_spec(format@),
{
    let mut value = "image/".to_owned();
    value.append(format);
    value
}

/// Whether a search is noted in the history: only where that is asked for.
pub fn records_search(record: Option<bool>) -> (noted: bool)
    ensures
        noted == (record == Some(true)),
{
    match record {
        Some(flag) => flag,
        None => false,
    }
}

} // verus!
