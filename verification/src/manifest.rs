use vstd::prelude::*;

verus! {

/// A resolved, ordered list of segment URLs for one playable unit
/// (a movie or a single episode), together with its display title and,
/// for an episode, its series coordinates.
///
/// The order of `index` is the authoritative byte order of the final
/// artifact and is preserved by everything downstream.
#[derive(Debug, PartialEq, Eq)]
pub struct Manifest {
    pub title: String,
    pub index: Vec<String>,
    pub season: Option<String>,
    pub episode: Option<String>,
}

/// The mathematical value of a [`Manifest`].
pub struct ManifestView {
    pub title: Seq<char>,
    pub index: Seq<Seq<char>>,
    pub season: Option<Seq<char>>,
    pub episode: Option<Seq<char>>,
}

impl View for Manifest {
    type V = ManifestView;

    open spec fn view(&self) -> ManifestView {
        ManifestView {
            title: self.title@,
            index: self.index.deep_view(),
            season: match self.season {
                Some(ref s) => Some(s@),
                None => None,
            },
            episode: match self.episode {
                Some(ref e) => Some(e@),
                None => None,
            },
        }
    }
}

/// One episode discovered on a series' embed page: a display title,
/// the location of the page that yields its player embed, and the
/// season/episode labels. The labels are opaque strings, carried
/// through unchanged to the manifest.
#[derive(Debug, PartialEq, Eq)]
pub struct Episode {
    pub title: String,
    pub data_iframe: String,
    pub season: String,
    pub episode: String,
}

/// The mathematical value of an [`Episode`].
pub struct EpisodeView {
    pub title: Seq<char>,
    pub data_iframe: Seq<char>,
    pub season: Seq<char>,
    pub episode: Seq<char>,
}

impl View for Episode {
    type V = EpisodeView;

    open spec fn view(&self) -> EpisodeView {
        EpisodeView {
            title: self.title@,
            data_iframe: self.data_iframe@,
            season: self.season@,
            episode: self.episode@,
        }
    }
}

impl Clone for Episode {
    fn clone(&self) -> (res: Self)
        ensures
            res == *self,
    {
        Episode {
            title: self.title.clone(),
            data_iframe: self.data_iframe.clone(),
            season: self.season.clone(),
            episode: self.episode.clone(),
        }
    }
}

/// A pointer to one title's player page: the display title and the
/// full (scheme-qualified) URL of the embed that starts its
/// resolution chain.
#[derive(Debug, PartialEq, Eq)]
pub struct VideoSource {
    pub title: String,
    pub data_iframe: String,
}

/// The mathematical value of a [`VideoSource`].
pub struct VideoSourceView {
    pub title: Seq<char>,
    pub data_iframe: Seq<char>,
}

impl View for VideoSource {
    type V = VideoSourceView;

    open spec fn view(&self) -> VideoSourceView {
        VideoSourceView { title: self.title@, data_iframe: self.data_iframe@ }
    }
}

impl Clone for VideoSource {
    fn clone(&self) -> (res: Self)
        ensures
            res == *self,
    {
        VideoSource { title: self.title.clone(), data_iframe: self.data_iframe.clone() }
    }
}

/// What a title's top-level embed page turned out to be: a single
/// movie source, or the set of episodes of a series.
#[derive(Debug)]
pub enum Video {
    Movie(VideoSource),
    Series(Vec<Episode>),
}

/// Attaches series coordinates to a manifest resolved for one episode.
///
/// Everything else about the manifest — the title and the ordered
/// index — is left untouched.
pub fn with_coordinates(manifest: Manifest, season: String, episode: String) -> (res: Manifest)
    ensures
        res@.title == manifest@.title,
        res@.index == manifest@.index,
        res@.season == Some(season@),
        res@.episode == Some(episode@),
{
    Manifest {
        title: manifest.title,
        index: manifest.index,
        season: Some(season),
        episode: Some(episode),
    }
}

} // verus!
