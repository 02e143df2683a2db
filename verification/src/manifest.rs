//! Manifests: the bytes fetched from a URL, read as a master playlist (a list
//! of variants) or a media playlist (a list of segments).
//!
//! Reading and writing the manifest text is the work of the `m3u8_rs` crate.
//! A media playlist stays a value of that crate, so that it can be written
//! out again with everything the library does not touch; the library reads
//! and rewrites the URIs of its segments, and only those.

use m3u8_rs::playlist::{MediaPlaylist, Playlist};
use vstd::prelude::*;

verus! {

/// The media playlist type of `m3u8_rs`, opaque to the proofs.
#[verifier::external_type_specification]
#[verifier::external_body]
pub struct ExMediaPlaylist(MediaPlaylist);

/// One entry of a master playlist: a rendition and where its playlist is.
#[derive(Debug, PartialEq, Eq)]
pub struct Variant {
    /// The `BANDWIDTH` attribute as the manifest spells it.
    pub bandwidth: String,
    /// The URI of the rendition's playlist, absolute or relative.
    pub uri: String,
}

/// A variant as contracts see it.
pub struct VariantView {
    pub bandwidth: Seq<char>,
    pub uri: Seq<char>,
}

impl View for Variant {
    type V = VariantView;

    open spec fn view(&self) -> VariantView {
        VariantView { bandwidth: self.bandwidth@, uri: self.uri@ }
    }
}

/// A manifest that was read.
pub enum Manifest {
    /// A master playlist: its variants, in the order of the manifest.
    Master(Vec<Variant>),
    /// A media playlist.
    Media(MediaPlaylist),
}

/// A media playlist as contracts see it.
pub struct MediaView {
    /// The URIs of the segments, in playlist order.
    pub uris: Seq<Seq<char>>,
    /// Everything else: see [`playlist_frame`].
    pub frame: Seq<u8>,
}

/// A manifest as contracts see it.
pub enum ManifestView {
    /// The variants of a master playlist.
    Master(Seq<VariantView>),
    /// A media playlist.
    Media(MediaView),
}

/// A media playlist as contracts see it.
pub open spec fn media_view(playlist: MediaPlaylist) -> MediaView {
    MediaView { uris: segment_uris(playlist), frame: playlist_frame(playlist) }
}

/// The variants of a list as contracts see them.
pub open spec fn variant_views(variants: Seq<Variant>) -> Seq<VariantView> {
    Seq::new(variants.len(), |i: int| variants[i]@)
}

impl View for Manifest {
    type V = ManifestView;

    open spec fn view(&self) -> ManifestView {
        match self {
            Manifest::Master(variants) => ManifestView::Master(variant_views(variants@)),
            Manifest::Media(playlist) => ManifestView::Media(media_view(*playlist)),
        }
    }
}

/// The URIs of the segments of a media playlist, in playlist order.
pub uninterp spec fn segment_uris(playlist: MediaPlaylist) -> Seq<Seq<char>>;

/// Everything that a media playlist holds beside the URIs of its segments:
/// the bytes that it is written out as once those URIs are blanked.
pub uninterp spec fn playlist_frame(playlist: MediaPlaylist) -> Seq<u8>;

/// The manifest text that `MediaPlaylist::write_to` writes for a playlist;
/// `None` where it reports an error.
pub uninterp spec fn written_playlist(playlist: MediaPlaylist) -> Option<Seq<u8>>;

/// What `m3u8_rs::parse_playlist` makes of `bytes`: the variants of a master
/// playlist, or a media playlist; `None` where it fails.
pub uninterp spec fn parsed_manifest(bytes: Seq<u8>) -> Option<ManifestView>;

/// Whether `needle` stands in `hay` from position `at` on.
pub open spec fn occurs_at(hay: Seq<u8>, needle: Seq<u8>, at: int) -> bool {
    0 <= at && at + needle.len() <= hay.len() && hay.subrange(at, at + needle.len()) == needle
}

/// Whether `needle` occurs in `hay` as a run of consecutive bytes.
pub open spec fn mentions(hay: Seq<u8>, needle: Seq<u8>) -> bool {
    exists|at: int| occurs_at(hay, needle, at)
}

/// The bytes of `BYTERANGE=`, the attribute of an `EXT-X-MAP` tag that the
/// parser cannot be given.
pub open spec fn map_byte_range_key() -> Seq<u8> {
    seq![66u8, 89u8, 84u8, 69u8, 82u8, 65u8, 78u8, 71u8, 69u8, 61u8]
}

/// What the library makes of `bytes`: nothing where they hold the attribute
/// that the parser cannot be given, else what the parser makes of them.
pub open spec fn readable_manifest(bytes: Seq<u8>) -> Option<ManifestView> {
    if mentions(bytes, map_byte_range_key()) {
        None
    } else {
        parsed_manifest(bytes)
    }
}

/// The number of segments: the length of the `segments` field. Trusted.
#[verifier::external_body]
pub(crate) fn segment_count(playlist: &MediaPlaylist) -> (n: usize)
    ensures
        n == segment_uris(*playlist).len(),
{
    playlist.segments.len()
}

/// A copy of the `uri` field of the segment at `index`. Trusted.
#[verifier::external_body]
pub(crate) fn segment_uri(playlist: &MediaPlaylist, index: usize) -> (uri: String)
    requires
        index < segment_uris(*playlist).len(),
    ensures
        uri@ == segment_uris(*playlist)[index as int],
{
    playlist.segments[index].uri.clone()
}

/// Stores `uri` in the `uri` field of the segment at `index`. Trusted: the
/// URI at `index` becomes `uri`, the others stay, and so does everything
/// else in the playlist.
#[verifier::external_body]
pub(crate) fn set_segment_uri(playlist: &mut MediaPlaylist, index: usize, uri: String)
    requires
        index < segment_uris(*old(playlist)).len(),
    ensures
        segment_uris(*final(playlist)) == segment_uris(*old(playlist)).update(index as int, uri@),
        playlist_frame(*final(playlist)) == playlist_frame(*old(playlist)),
{
    playlist.segments[index].uri = uri;
}

/// Calls `MediaPlaylist::write_to` on an empty buffer and hands out the
/// buffer. Trusted: the result is the one that `written_playlist` names.
#[verifier::external_body]
pub(crate) fn write_playlist(playlist: &MediaPlaylist) -> (r: Option<Vec<u8>>)
    ensures
        match r {
            Some(bytes) => written_playlist(*playlist) == Some(bytes@),
            None => written_playlist(*playlist) is None,
        },
{
    let mut bytes: Vec<u8> = Vec::new();
    match playlist.write_to(&mut bytes) {
        Ok(()) => Some(bytes),
        Err(_) => None,
    }
}

/// Calls `m3u8_rs::parse_playlist` and moves the result into a [`Manifest`]:
/// of each variant of a master playlist the `bandwidth` and `uri` fields, a
/// media playlist whole. Trusted: the result is the one that
/// `parsed_manifest` names. The parser panics on an `EXT-X-MAP` tag with a
/// `BYTERANGE` attribute that it cannot read, so bytes that spell that
/// attribute are kept from it.
#[verifier::external_body]
fn parse_playlist_bytes(bytes: &[u8]) -> (r: Option<Manifest>)
    requires
        !mentions(bytes@, map_byte_range_key()),
    ensures
        r.deep_view() == parsed_manifest(bytes@),
{
    match m3u8_rs::parse_playlist(bytes) {
        Ok((_, Playlist::MasterPlaylist(master))) => Some(
            Manifest::Master(
                master.variants.into_iter().map(
                    |v| Variant { bandwidth: v.bandwidth, uri: v.uri },
                ).collect(),
            ),
        ),
        Ok((_, Playlist::MediaPlaylist(media))) => Some(Manifest::Media(media)),
        Err(_) => None,
    }
}

impl DeepView for Manifest {
    type V = ManifestView;

    open spec fn deep_view(&self) -> ManifestView {
        self@
    }
}

/// Whether `needle` occurs in `hay`.
pub fn contains_bytes(hay: &[u8], needle: &[u8]) -> (r: bool)
    ensures
        r == mentions(hay@, needle@),
{
    let n = needle.len();
    let h = hay.len();
    if n > h {
        return false;
    }
    let mut i: usize = 0;
    while i <= h - n
        invariant
            n == needle@.len(),
            h == hay@.len(),
            n <= h,
            i <= h - n + 1,
            forall|k: int| k < i ==> !occurs_at(hay@, needle@, k),
        decreases h - n + 1 - i,
    {
        let mut j: usize = 0;
        while j < n && hay[i + j] == needle[j]
            invariant
                n == needle@.len(),
                h == hay@.len(),
                i + n <= h,
                j <= n,
                forall|m: int| 0 <= m < j ==> hay@[i + m] == needle@[m],
            decreases n - j,
        {
            j = j + 1;
        }
        if j == n {
            assert(hay@.subrange(i as int, i + n) =~= needle@);
            assert(occurs_at(hay@, needle@, i as int));
            return true;
        }
        i = i + 1;
    }
    false
}

/// Reads a manifest. `None` where the bytes are no playlist, and where they
/// spell the `BYTERANGE=` attribute, which is not supported.
pub fn parse_manifest(bytes: &[u8]) -> (r: Option<Manifest>)
    ensures
        r.deep_view() == readable_manifest(bytes@),
{
    let key: [u8; 10] = [66u8, 89u8, 84u8, 69u8, 82u8, 65u8, 78u8, 71u8, 69u8, 61u8];
    if contains_bytes(bytes, key.as_slice()) {
        None
    } else {
        parse_playlist_bytes(bytes)
    }
}

} // verus!
