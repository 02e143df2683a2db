//! Resolving a manifest URL down to one media playlist.
//!
//! Fetching is not done here. A [`Resolver`] names the URL to fetch next; the
//! caller fetches it and reports the body or the failure, and gets back the
//! next [`Resolution`]: more to fetch, the media playlist with every segment
//! URI made absolute, or the error that ends the attempt.

use crate::manifest::{
    media_view, parse_manifest, playlist_frame, readable_manifest, segment_count, segment_uri,
    segment_uris, set_segment_uri, variant_views, Manifest, ManifestView, MediaView, Variant,
    VariantView,
};
use crate::select::{best_uris, select_best_variants, well_formed};
use crate::uri::{joined_url, normalize_uri, normalized, url_parses};
use m3u8_rs::playlist::MediaPlaylist;
use vstd::prelude::*;

verus! {

/// Why a resolution failed.
#[derive(Debug, PartialEq, Eq)]
pub enum ResolveError {
    /// There was no URL to try.
    NoCandidates,
    /// The last URL tried could not be fetched; the transport's own words.
    Fetch(String),
    /// What the last URL tried gave is no playlist.
    Parse,
    /// A variant of a master playlist has a bandwidth that is no number.
    MalformedBandwidth,
    /// A URI in a manifest is not absolute and cannot be resolved.
    UnresolvableUri,
}

/// An error as contracts see it.
pub enum ResolveErrorView {
    NoCandidates,
    Fetch(Seq<char>),
    Parse,
    MalformedBandwidth,
    UnresolvableUri,
}

impl View for ResolveError {
    type V = ResolveErrorView;

    open spec fn view(&self) -> ResolveErrorView {
        match self {
            ResolveError::NoCandidates => ResolveErrorView::NoCandidates,
            ResolveError::Fetch(reason) => ResolveErrorView::Fetch(reason@),
            ResolveError::Parse => ResolveErrorView::Parse,
            ResolveError::MalformedBandwidth => ResolveErrorView::MalformedBandwidth,
            ResolveError::UnresolvableUri => ResolveErrorView::UnresolvableUri,
        }
    }
}

/// Whether every one of `uris` has an absolute form for the base `base`.
pub open spec fn resolvable(uris: Seq<Seq<char>>, base: Seq<char>) -> bool {
    forall|i: int| 0 <= i < uris.len() ==> (#[trigger] normalized(uris[i], base)) is Some
}

/// The absolute forms of `uris` for the base `base`, in order.
pub open spec fn normalized_all(uris: Seq<Seq<char>>, base: Seq<char>) -> Seq<Seq<char>> {
    Seq::new(uris.len(), |i: int| normalized(uris[i], base).unwrap())
}

/// The URLs to try after a master playlist with the variants `vs` was
/// fetched from `base`: the URIs of the variants at the highest bandwidth,
/// each made absolute.
pub open spec fn master_candidates(vs: Seq<VariantView>, base: Seq<char>) -> Result<
    Seq<Seq<char>>,
    ResolveErrorView,
> {
    if !well_formed(vs) {
        Err(ResolveErrorView::MalformedBandwidth)
    } else if !resolvable(best_uris(vs), base) {
        Err(ResolveErrorView::UnresolvableUri)
    } else {
        Ok(normalized_all(best_uris(vs), base))
    }
}

/// What making absolute does to each URI of a manifest: a URI that is an
/// absolute URL stays as it is, character for character; any other becomes
/// what resolving it against `base` gives.
pub proof fn lemma_normalized_forms(uris: Seq<Seq<char>>, base: Seq<char>, i: int)
    requires
        0 <= i < uris.len(),
    ensures
        normalized_all(uris, base).len() == uris.len(),
        url_parses(uris[i]) ==> normalized_all(uris, base)[i] == uris[i],
        !url_parses(uris[i]) ==> (joined_url(base, uris[i]) matches Some(joined)
            ==> normalized_all(uris, base)[i] == joined),
{
}

/// A list of URLs, or an error, as contracts see it.
pub open spec fn candidates_view(r: Result<Vec<String>, ResolveError>) -> Result<
    Seq<Seq<char>>,
    ResolveErrorView,
> {
    match r {
        Ok(urls) => Ok(urls.deep_view()),
        Err(e) => Err(e@),
    }
}

/// Makes every one of `uris` absolute for the base `base`. `None` where one
/// of them cannot be.
pub fn normalize_all(uris: &Vec<String>, base: &str) -> (r: Option<Vec<String>>)
    ensures
        r.deep_view() == if resolvable(uris.deep_view(), base@) {
            Some(normalized_all(uris.deep_view(), base@))
        } else {
            None
        },
{
    let ghost texts = uris.deep_view();
    let mut out: Vec<String> = Vec::new();
    let mut i: usize = 0;
    while i < uris.len()
        invariant
            i <= uris.len(),
            texts == uris.deep_view(),
            out.len() == i,
            forall|k: int| 0 <= k < i ==> normalized(#[trigger] texts[k], base@) == Some(out@[k]@),
        decreases uris.len() - i,
    {
        match normalize_uri(uris[i].as_str(), base) {
            Some(absolute) => {
                out.push(absolute);
            },
            None => {
                assert(normalized(texts[i as int], base@) is None);
                return None;
            },
        }
        i = i + 1;
    }
    Some(out)
}

/// The URLs to try after a master playlist: the URIs of its variants at the
/// highest bandwidth, ties kept, in manifest order, each made absolute for
/// the URL `original_url` that the playlist was fetched from. Fails where a
/// bandwidth is no number, and where a chosen URI cannot be made absolute.
pub fn choose_urls_from_master_playlist(variants: &Vec<Variant>, original_url: &str) -> (r: Result<
    Vec<String>,
    ResolveError,
>)
    ensures
        candidates_view(r) == master_candidates(variant_views(variants@), original_url@),
{
    match select_best_variants(variants) {
        None => Err(ResolveError::MalformedBandwidth),
        Some(uris) => match normalize_all(&uris, original_url) {
            None => Err(ResolveError::UnresolvableUri),
            Some(urls) => Ok(urls),
        },
    }
}

/// Makes every segment URI of `playlist` absolute for the URL `original_url`
/// that the playlist was fetched from, and changes nothing else in it. Where
/// one of the URIs cannot be made absolute, fails and leaves the playlist as
/// it was.
pub fn normalize_media_playlist(playlist: &mut MediaPlaylist, original_url: &str) -> (r: Result<
    (),
    ResolveError,
>)
    ensures
        resolvable(segment_uris(*old(playlist)), original_url@) ==> r is Ok && segment_uris(
            *final(playlist),
        ) == normalized_all(segment_uris(*old(playlist)), original_url@),
        playlist_frame(*final(playlist)) == playlist_frame(*old(playlist)),
        !resolvable(segment_uris(*old(playlist)), original_url@) ==> r == Err::<(), ResolveError>(
            ResolveError::UnresolvableUri,
        ) && *final(playlist) == *old(playlist),
{
    let ghost before = segment_uris(*playlist);
    let count = segment_count(playlist);
    let mut uris: Vec<String> = Vec::new();
    let mut i: usize = 0;
    while i < count
        invariant
            i <= count,
            count == before.len(),
            before == segment_uris(*playlist),
            uris.len() == i,
            forall|k: int| 0 <= k < i ==> (#[trigger] uris@[k])@ == before[k],
        decreases count - i,
    {
        uris.push(segment_uri(playlist, i));
        i = i + 1;
    }
    assert(uris.deep_view() =~= before);
    let absolute = match normalize_all(&uris, original_url) {
        Some(absolute) => absolute,
        None => {
            return Err(ResolveError::UnresolvableUri);
        },
    };
    let ghost after = normalized_all(before, original_url@);
    assert(absolute.deep_view() == after);
    let mut absolute = absolute;
    let mut j: usize = count;
    while j > 0
        invariant
            j <= count,
            count == before.len(),
            absolute.len() == j,
            after.len() == count,
            segment_uris(*playlist).len() == count,
            playlist_frame(*playlist) == playlist_frame(*old(playlist)),
            forall|k: int| 0 <= k < j ==> (#[trigger] absolute@[k])@ == after[k],
            forall|k: int| 0 <= k < j ==> (#[trigger] segment_uris(*playlist)[k]) == before[k],
            forall|k: int| j <= k < count ==> (#[trigger] segment_uris(*playlist)[k]) == after[k],
        decreases j,
    {
        let uri = absolute.pop().unwrap();
        j = j - 1;
        set_segment_uri(playlist, j, uri);
    }
    Ok(())
}

/// A resolution under way: the URLs to try, in order of preference, and the
/// one to fetch now.
pub struct Resolver {
    candidates: Vec<String>,
    position: usize,
}

/// A resolver as contracts see it.
pub struct ResolverView {
    /// The URLs to try, in order of preference.
    pub candidates: Seq<Seq<char>>,
    /// The index of the URL to fetch now.
    pub position: int,
}

/// Where a resolution stands.
pub enum Resolution {
    /// A manifest is to be fetched from the resolver's URL.
    Pending(Resolver),
    /// The media playlist was found; every segment URI is absolute.
    Resolved(MediaPlaylist),
    /// The resolution failed.
    Failed(ResolveError),
}

/// A resolution as contracts see it.
pub enum ResolutionView {
    Pending(ResolverView),
    /// The playlist that was found.
    Resolved(MediaView),
    Failed(ResolveErrorView),
}

/// A resolution that sets out with `candidates`: the first one is to be
/// fetched; with none, it has failed.
pub open spec fn begin(candidates: Seq<Seq<char>>) -> ResolutionView {
    if candidates.len() == 0 {
        ResolutionView::Failed(ResolveErrorView::NoCandidates)
    } else {
        ResolutionView::Pending(ResolverView { candidates, position: 0 })
    }
}

/// The resolution after the current URL failed with `error`: the next URL is
/// to be fetched; after the last one, the resolution has failed with `error`.
pub open spec fn after_error(s: ResolverView, error: ResolveErrorView) -> ResolutionView {
    if s.position + 1 < s.candidates.len() {
        ResolutionView::Pending(ResolverView { candidates: s.candidates, position: s.position + 1 })
    } else {
        ResolutionView::Failed(error)
    }
}

/// The resolution after the body fetched from the current URL was read as
/// `manifest`. No playlist: the URL has failed. A master playlist: the
/// resolution sets out anew with the URLs of the best variants, and fails at
/// once where the playlist breaks the format. A media playlist: it is the
/// result, with its segment URIs made absolute and all else as it was read.
pub open spec fn after_manifest(s: ResolverView, manifest: Option<ManifestView>) -> ResolutionView {
    let base = s.candidates[s.position];
    match manifest {
        None => after_error(s, ResolveErrorView::Parse),
        Some(ManifestView::Master(vs)) => match master_candidates(vs, base) {
            Ok(urls) => begin(urls),
            Err(e) => ResolutionView::Failed(e),
        },
        Some(ManifestView::Media(media)) => if resolvable(media.uris, base) {
            ResolutionView::Resolved(
                MediaView { uris: normalized_all(media.uris, base), frame: media.frame },
            )
        } else {
            ResolutionView::Failed(ResolveErrorView::UnresolvableUri)
        },
    }
}

impl Resolver {
    #[verifier::type_invariant]
    spec fn inv(self) -> bool {
        self.position < self.candidates.len()
    }

    /// The URL to fetch now.
    pub fn url(&self) -> (r: &str)
        ensures
            0 <= self@.position < self@.candidates.len(),
            r@ == self@.candidates[self@.position],
    {
        proof {
            use_type_invariant(self);
        }
        self.candidates[self.position].as_str()
    }

    /// Reports that the current URL could not be fetched.
    pub fn fetch_failed(self, reason: String) -> (r: Resolution)
        ensures
            r@ == after_error(self@, ResolveErrorView::Fetch(reason@)),
    {
        self.fail_current(ResolveError::Fetch(reason))
    }

    /// Gives up the current URL for `error`.
    fn fail_current(self, error: ResolveError) -> (r: Resolution)
        ensures
            r@ == after_error(self@, error@),
    {
        proof {
            use_type_invariant(&self);
        }
        if self.position + 1 < self.candidates.len() {
            Resolution::Pending(
                Resolver { candidates: self.candidates, position: self.position + 1 },
            )
        } else {
            Resolution::Failed(error)
        }
    }

    /// Reports what the body fetched from the current URL was read as.
    pub fn manifest_read(self, manifest: Option<Manifest>) -> (r: Resolution)
        ensures
            r@ == after_manifest(self@, manifest.deep_view()),
    {
        proof {
            use_type_invariant(&self);
        }
        match manifest {
            None => self.fail_current(ResolveError::Parse),
            Some(Manifest::Master(variants)) => {
                let base = self.candidates[self.position].as_str();
                match choose_urls_from_master_playlist(&variants, base) {
                    Ok(urls) => choose_media_playlist(urls),
                    Err(e) => Resolution::Failed(e),
                }
            },
            Some(Manifest::Media(playlist)) => {
                let base = self.candidates[self.position].as_str();
                let mut playlist = playlist;
                match normalize_media_playlist(&mut playlist, base) {
                    Ok(()) => Resolution::Resolved(playlist),
                    Err(e) => Resolution::Failed(e),
                }
            },
        }
    }

    /// Reports the body that was fetched from the current URL.
    pub fn body_fetched(self, bytes: &[u8]) -> (r: Resolution)
        ensures
            r@ == after_manifest(self@, readable_manifest(bytes@)),
    {
        let manifest = parse_manifest(bytes);
        self.manifest_read(manifest)
    }
}

impl View for Resolver {
    type V = ResolverView;

    closed spec fn view(&self) -> ResolverView {
        ResolverView { candidates: self.candidates.deep_view(), position: self.position as int }
    }
}

impl View for Resolution {
    type V = ResolutionView;

    open spec fn view(&self) -> ResolutionView {
        match self {
            Resolution::Pending(resolver) => ResolutionView::Pending(resolver@),
            Resolution::Resolved(playlist) => ResolutionView::Resolved(media_view(*playlist)),
            Resolution::Failed(error) => ResolutionView::Failed(error@),
        }
    }
}

/// Sets out to resolve: `urls` are the manifest URLs to try, in order of
/// preference.
pub fn choose_media_playlist(urls: Vec<String>) -> (r: Resolution)
    ensures
        r@ == begin(urls.deep_view()),
{
    if urls.len() == 0 {
        Resolution::Failed(ResolveError::NoCandidates)
    } else {
        Resolution::Pending(Resolver { candidates: urls, position: 0 })
    }
}

} // verus!
