//! Addresses: telling an absolute URL from a reference, resolving a reference
//! against the manifest it stands in, and naming the local output after the
//! address of the manifest.
//!
//! The URL grammar and the resolution rules are those of the `url` crate.
//! Its answers are named here and not spelled out; what this module proves is
//! how the library uses them.

use crate::text::{after_last, chars_of, ends_with, has_suffix, tail_after};
use url::Url;
use vstd::prelude::*;
use vstd::string::*;

verus! {

/// Whether `Url::parse` accepts `text`, that is, whether `text` is an
/// absolute URL.
pub uninterp spec fn url_parses(text: Seq<char>) -> bool;

/// The serialization of what the URL parser makes of `reference` with the
/// URL parsed from `base` as its base; `None` where `base` is no absolute URL
/// or the parser refuses `reference`.
pub uninterp spec fn joined_url(base: Seq<char>, reference: Seq<char>) -> Option<Seq<char>>;

/// The path component (`Url::path`) of the URL parsed from `text`; `None`
/// where `text` is no absolute URL.
pub uninterp spec fn parsed_path(text: Seq<char>) -> Option<Seq<char>>;

/// Calls `Url::parse` and reports whether it succeeded. Trusted: the result
/// is the one that `url_parses` names.
#[verifier::external_body]
fn parses_as_url(text: &str) -> (r: bool)
    ensures
        r == url_parses(text@),
{
    Url::parse(text).is_ok()
}

/// Parses `base` with `Url::parse`, then parses `reference` with that URL as
/// the base (`Url::options().base_url(..).parse(..)`), and hands out the
/// serialization. Trusted: the result is the one that `joined_url` names.
#[verifier::external_body]
fn join_with_base(base: &str, reference: &str) -> (r: Option<String>)
    ensures
        r.deep_view() == joined_url(base@, reference@),
{
    match Url::parse(base) {
        Ok(parsed) => match Url::options().base_url(Some(&parsed)).parse(reference) {
            Ok(joined) => Some(String::from(joined)),
            Err(_) => None,
        },
        Err(_) => None,
    }
}

/// Parses `text` with `Url::parse` and hands out `Url::path` of the result.
/// Trusted: the result is the one that `parsed_path` names.
#[verifier::external_body]
fn path_of_url(text: &str) -> (r: Option<String>)
    ensures
        r.deep_view() == parsed_path(text@),
{
    match Url::parse(text) {
        Ok(parsed) => Some(parsed.path().to_owned()),
        Err(_) => None,
    }
}

/// The form in which a URI of a manifest is used, given whether the URI is
/// absolute and what joining it to the base gave: an absolute URI as it
/// stands, any other as joined.
pub open spec fn settled_uri(uri: Seq<char>, absolute: bool, joined: Option<Seq<char>>) -> Option<
    Seq<char>,
> {
    if absolute {
        Some(uri)
    } else {
        joined
    }
}

/// The absolute form of `uri` for a manifest that was fetched from `base`:
/// `uri` itself, character for character, where it is an absolute URL;
/// otherwise `uri` resolved against `base`; `None` where that fails.
pub open spec fn normalized(uri: Seq<char>, base: Seq<char>) -> Option<Seq<char>> {
    settled_uri(uri, url_parses(uri), joined_url(base, uri))
}

/// Picks the form in which `uri` is used: see [`settled_uri`].
pub fn settle_uri(uri: &str, absolute: bool, joined: Option<String>) -> (r: Option<String>)
    ensures
        r.deep_view() == settled_uri(uri@, absolute, joined.deep_view()),
{
    if absolute {
        Some(uri.to_owned())
    } else {
        joined
    }
}

/// Makes `uri` absolute for a manifest fetched from `base`. An absolute URI
/// comes back unchanged; a relative one comes back resolved against `base`.
/// `None` where `uri` is relative and cannot be resolved.
pub fn normalize_uri(uri: &str, base: &str) -> (r: Option<String>)
    ensures
        r.deep_view() == normalized(uri@, base@),
        url_parses(uri@) ==> r.deep_view() == Some(uri@),
        !url_parses(uri@) ==> r.deep_view() == joined_url(base@, uri@),
{
    if parses_as_url(uri) {
        settle_uri(uri, true, None)
    } else {
        let joined = join_with_base(base, uri);
        settle_uri(uri, false, joined)
    }
}

/// The last segment of a URL path: what follows its last `/`. A path that
/// does not begin with `/` has no segments.
pub open spec fn last_segment(path: Seq<char>) -> Option<Seq<char>> {
    if path.len() > 0 && path[0] == '/' {
        Some(tail_after(path, '/'))
    } else {
        None
    }
}

/// `name`, with `suffix` added unless `name` already ends with it.
pub open spec fn with_suffix(name: Seq<char>, suffix: Seq<char>) -> Seq<char> {
    if has_suffix(name, suffix) {
        name
    } else {
        name + suffix
    }
}

/// The name of the local manifest for a manifest whose URL has the path
/// `path`: the last segment, ending in `.m3u8`.
pub open spec fn manifest_name_for_path(path: Seq<char>) -> Option<Seq<char>> {
    match last_segment(path) {
        Some(segment) => Some(with_suffix(segment, ".m3u8"@)),
        None => None,
    }
}

/// The name of the local manifest for the manifest at `url`; `None` where
/// `url` is no absolute URL or has no path segments.
pub open spec fn manifest_name(url: Seq<char>) -> Option<Seq<char>> {
    match parsed_path(url) {
        Some(path) => manifest_name_for_path(path),
        None => None,
    }
}

/// The name of the directory that takes the segments, beside the local
/// manifest `manifest_file`.
pub open spec fn segment_dir(manifest_file: Seq<char>) -> Seq<char> {
    manifest_file + ".ts"@
}

/// Names the local manifest after the path of its URL: see
/// [`manifest_name_for_path`].
pub fn manifest_file_name_for_path(path: &str) -> (r: Option<String>)
    ensures
        r.deep_view() == manifest_name_for_path(path@),
{
    let chars = chars_of(path);
    if chars.len() == 0 || chars[0] != '/' {
        return None;
    }
    let mut name = after_last(path, '/');
    if !ends_with(name.as_str(), ".m3u8") {
        name.append(".m3u8");
    }
    Some(name)
}

/// Names the local manifest after the URL it is fetched from.
pub fn manifest_file_name(url: &str) -> (r: Option<String>)
    ensures
        r.deep_view() == manifest_name(url@),
{
    match path_of_url(url) {
        Some(path) => manifest_file_name_for_path(path.as_str()),
        None => None,
    }
}

/// Names the directory that takes the segments.
pub fn segment_dir_name(manifest_file: &str) -> (r: String)
    ensures
        r@ == segment_dir(manifest_file@),
{
    let mut name = manifest_file.to_owned();
    name.append(".ts");
    name
}

} // verus!
