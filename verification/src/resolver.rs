use vstd::prelude::*;
use crate::errors::{ResolveStep, VidsrcError};
use crate::manifest::{Episode, Manifest, ManifestView, VideoSource, VideoSourceView};
use crate::text::{extract_file_id, index_from_text, spec_extract_file_id, spec_index, spec_trim,
    trim_blank};

verus! {

// ------------------------------------------------------------------
// The fixed locations of the remote service
// ------------------------------------------------------------------

/// The origin every resolution chain starts from.
pub open spec fn base_url() -> Seq<char> {
    "https://vidsrc.xyz"@
}

/// The scheme prefixed to scheme-relative embed locations.
pub open spec fn https_scheme() -> Seq<char> {
    "https:"@
}

/// The embed page prefix a locator is appended to.
pub open spec fn embed_prefix() -> Seq<char> {
    "https://vidsrc.xyz/embed/"@
}

/// The referring origin two of the chain's fetches must carry.
pub open spec fn referer_value() -> Seq<char> {
    "https://vidsrc.xyz/"@
}

/// The URL of the top-level embed page for a locator.
pub fn embed_url(locator: &str) -> (url: String)
    ensures
        url@ == embed_prefix() + locator@,
{
    let mut url = String::from_str("https://vidsrc.xyz/embed/");
    url.append(locator);
    url
}

/// The URL of the page that resolves one episode's source.
pub fn episode_page_url(episode: &Episode) -> (url: String)
    ensures
        url@ == base_url() + episode@.data_iframe,
{
    let mut url = String::from_str("https://vidsrc.xyz");
    url.append(episode.data_iframe.as_str());
    url
}

/// Qualifies a scheme-relative embed location with the secure scheme.
pub fn https_url(part: &str) -> (url: String)
    ensures
        url@ == https_scheme() + part@,
{
    let mut url = String::from_str("https:");
    url.append(part);
    url
}

/// The value of the referring-origin header.
pub fn referer_header() -> (value: String)
    ensures
        value@ == referer_value(),
{
    String::from_str("https://vidsrc.xyz/")
}

/// A movie's source as the top-level embed page names it: the display
/// title, and the player embed location qualified with the secure
/// scheme.
pub fn movie_source(title: String, iframe_part: &str) -> (source: VideoSource)
    ensures
        source@ == (VideoSourceView { title: title@, data_iframe: https_scheme() + iframe_part@ }),
{
    VideoSource { title, data_iframe: https_url(iframe_part) }
}

// ------------------------------------------------------------------
// Episode selection
// ------------------------------------------------------------------

/// The caller-supplied rule deciding which discovered episodes proceed
/// past discovery; rejected episodes are dropped before any further
/// fetch is spent on them.
#[derive(Debug)]
pub enum EpisodeFilter {
    /// Accept every discovered episode.
    All,
    /// Accept the episodes of one season whose episode label stands
    /// among the given ones.
    SeasonEpisodes { season: String, episodes: Vec<String> },
}

impl Default for EpisodeFilter {
    /// The default selection accepts every discovered episode.
    fn default() -> (filter: Self)
        ensures
            filter is All,
    {
        EpisodeFilter::All
    }
}

/// Whether `filter` accepts `episode`.
pub open spec fn episode_selected(filter: EpisodeFilter, episode: Episode) -> bool {
    match filter {
        EpisodeFilter::All => true,
        EpisodeFilter::SeasonEpisodes { season, episodes } => episode.season@ == season@
            && exists|i: int| 0 <= i < episodes@.len() && #[trigger] episodes@[i]@ == episode.episode@,
    }
}

impl EpisodeFilter {
    /// Whether this rule accepts `episode`.
    #[verifier::loop_isolation(false)]
    pub fn selects(&self, episode: &Episode) -> (b: bool)
        ensures
            b == episode_selected(*self, *episode),
    {
        match self {
            EpisodeFilter::All => true,
            EpisodeFilter::SeasonEpisodes { season, episodes } => {
                if !(episode.season == *season) {
                    return false;
                }
                let n = episodes.len();
                let mut i: usize = 0;
                while i < n
                    invariant
                        n == episodes@.len(),
                        i <= n,
                        forall|k: int| 0 <= k < i ==> #[trigger] episodes@[k]@ != episode.episode@,
                    decreases n - i,
                {
                    if episodes[i] == episode.episode {
                        proof {
                            assert(episodes@[i as int]@ == episode.episode@);
                            assert(exists|k: int|
                                0 <= k < episodes@.len() && #[trigger] episodes@[k]@
                                    == episode.episode@);
                        }
                        return true;
                    }
                    i = i + 1;
                }
                false
            },
        }
    }
}

/// Keeps, in discovery order, exactly the episodes the filter accepts:
/// the manifests later produced for a series are those of the accepted
/// episodes and no others.
pub fn filter_episodes(episodes: &Vec<Episode>, filter: &EpisodeFilter) -> (selected: Vec<Episode>)
    ensures
        selected@ == episodes@.filter(|e: Episode| episode_selected(*filter, e)),
{
    let ghost pred = |e: Episode| episode_selected(*filter, e);
    let n = episodes.len();
    let mut selected: Vec<Episode> = Vec::new();
    proof {
        broadcast use Seq::<_>::lemma_filter_push;

        assert(episodes@.subrange(0, 0) =~= Seq::<Episode>::empty());
        assert(Seq::<Episode>::empty().filter(pred) =~= Seq::<Episode>::empty());
    }
    for i in 0..n
        invariant
            n == episodes@.len(),
            selected@ == episodes@.subrange(0, i as int).filter(pred),
            pred == (|e: Episode| episode_selected(*filter, e)),
    {
        proof {
            broadcast use Seq::<_>::lemma_filter_push;

            assert(episodes@.subrange(0, i + 1) =~= episodes@.subrange(0, i as int).push(
                episodes@[i as int],
            ));
        }
        if filter.selects(&episodes[i]) {
            selected.push(episodes[i].clone());
        }
    }
    proof {
        assert(episodes@.subrange(0, n as int) =~= episodes@);
    }
    selected
}

// ------------------------------------------------------------------
// The resolution chain as a state machine
// ------------------------------------------------------------------

/// Which of the two opaque decode transformations an action invokes.
#[derive(Clone, Copy, Debug, PartialEq, Eq)]
pub enum DecodePurpose {
    /// Hash tokens in, file-id page URL fragment out.
    FileIdUrl,
    /// Encoded file id in, index URL out.
    IndexUrl,
}

/// Where one title's (or one episode's) resolution stands. Every state
/// up to `ManifestReady` has exactly one outside action pending; its
/// outcome is the event that drives the next step.
#[derive(Debug)]
pub enum ResolveState {
    /// The episode's source page must be fetched and its title and
    /// player location extracted.
    SourceRequested { endpoint: String },
    /// The player page must be fetched (with the referring origin) and
    /// the two hash tokens extracted.
    SourceResolved { title: String, player_url: String },
    /// The hash tokens must be decoded into the file-id page location.
    TokensResolved { title: String, token_a: String, token_b: String },
    /// The file-id page must be fetched (with the referring origin)
    /// and its script text extracted.
    FilePageRequested { title: String, file_page_url: String },
    /// The encoded file id must be decoded into the index URL.
    FileIdResolved { title: String, file_id: String },
    /// The index document must be fetched.
    IndexResolved { title: String, index_url: String },
    /// Terminal: the manifest is complete.
    ManifestReady { manifest: Manifest },
}

/// The outcome of the pending action, handed back by the caller.
#[derive(Debug)]
pub enum ResolveEvent {
    /// The source page yielded a display title and a scheme-relative
    /// player location.
    SourceExtracted { title: String, iframe_part: String },
    /// The player page yielded the two hash tokens.
    TokensExtracted { token_a: String, token_b: String },
    /// A fetch yielded the requested text.
    BodyFetched { body: String },
    /// A decode invocation yielded its output.
    Decoded { output: String },
    /// A fetch failed on the wire (`None`) or with a non-success
    /// status.
    FetchFailed { status: Option<u16> },
    /// An expected field was absent from the fetched document.
    ExtractionFailed,
    /// The decode invocation failed or reported an error.
    DecodeFailed,
}

/// The one outside action the caller must perform next.
#[derive(Debug)]
pub enum ResolveAction {
    /// Fetch a page.
    FetchPage { url: String },
    /// Fetch a page carrying the referring origin as a header.
    FetchWithReferer { url: String, referer: String },
    /// Invoke the external decoder.
    Decode { purpose: DecodePurpose, payload: Vec<String> },
}

/// The mathematical value of a [`ResolveState`].
pub enum ResolveStateView {
    SourceRequested { endpoint: Seq<char> },
    SourceResolved { title: Seq<char>, player_url: Seq<char> },
    TokensResolved { title: Seq<char>, token_a: Seq<char>, token_b: Seq<char> },
    FilePageRequested { title: Seq<char>, file_page_url: Seq<char> },
    FileIdResolved { title: Seq<char>, file_id: Seq<char> },
    IndexResolved { title: Seq<char>, index_url: Seq<char> },
    ManifestReady { manifest: ManifestView },
}

impl View for ResolveState {
    type V = ResolveStateView;

    open spec fn view(&self) -> ResolveStateView {
        match self {
            ResolveState::SourceRequested { endpoint } => ResolveStateView::SourceRequested {
                endpoint: endpoint@,
            },
            ResolveState::SourceResolved { title, player_url } => ResolveStateView::SourceResolved {
                title: title@,
                player_url: player_url@,
            },
            ResolveState::TokensResolved { title, token_a, token_b } => ResolveStateView::TokensResolved {
                title: title@,
                token_a: token_a@,
                token_b: token_b@,
            },
            ResolveState::FilePageRequested { title, file_page_url } => ResolveStateView::FilePageRequested {
                title: title@,
                file_page_url: file_page_url@,
            },
            ResolveState::FileIdResolved { title, file_id } => ResolveStateView::FileIdResolved {
                title: title@,
                file_id: file_id@,
            },
            ResolveState::IndexResolved { title, index_url } => ResolveStateView::IndexResolved {
                title: title@,
                index_url: index_url@,
            },
            ResolveState::ManifestReady { manifest } => ResolveStateView::ManifestReady {
                manifest: manifest@,
            },
        }
    }
}

/// The mathematical value of a [`ResolveEvent`].
pub enum ResolveEventView {
    SourceExtracted { title: Seq<char>, iframe_part: Seq<char> },
    TokensExtracted { token_a: Seq<char>, token_b: Seq<char> },
    BodyFetched { body: Seq<char> },
    Decoded { output: Seq<char> },
    FetchFailed { status: Option<u16> },
    ExtractionFailed,
    DecodeFailed,
}

impl View for ResolveEvent {
    type V = ResolveEventView;

    open spec fn view(&self) -> ResolveEventView {
        match self {
            ResolveEvent::SourceExtracted { title, iframe_part } => ResolveEventView::SourceExtracted {
                title: title@,
                iframe_part: iframe_part@,
            },
            ResolveEvent::TokensExtracted { token_a, token_b } => ResolveEventView::TokensExtracted {
                token_a: token_a@,
                token_b: token_b@,
            },
            ResolveEvent::BodyFetched { body } => ResolveEventView::BodyFetched { body: body@ },
            ResolveEvent::Decoded { output } => ResolveEventView::Decoded { output: output@ },
            ResolveEvent::FetchFailed { status } => ResolveEventView::FetchFailed { status: *status },
            ResolveEvent::ExtractionFailed => ResolveEventView::ExtractionFailed,
            ResolveEvent::DecodeFailed => ResolveEventView::DecodeFailed,
        }
    }
}

/// The mathematical value of a [`ResolveAction`].
pub enum ResolveActionView {
    FetchPage { url: Seq<char> },
    FetchWithReferer { url: Seq<char>, referer: Seq<char> },
    Decode { purpose: DecodePurpose, payload: Seq<Seq<char>> },
}

impl View for ResolveAction {
    type V = ResolveActionView;

    open spec fn view(&self) -> ResolveActionView {
        match self {
            ResolveAction::FetchPage { url } => ResolveActionView::FetchPage { url: url@ },
            ResolveAction::FetchWithReferer { url, referer } => ResolveActionView::FetchWithReferer {
                url: url@,
                referer: referer@,
            },
            ResolveAction::Decode { purpose, payload } => ResolveActionView::Decode {
                purpose: *purpose,
                payload: payload.deep_view(),
            },
        }
    }
}

/// The value of an optional pending action.
pub open spec fn action_views(action: Option<ResolveAction>) -> Option<ResolveActionView> {
    match action {
        Some(a) => Some(a@),
        None => None,
    }
}

/// Whether `event` can be the outcome of the action pending in
/// `state`. The caller performed that action, so it always holds an
/// event this admits; the terminal state has no pending action.
pub open spec fn event_fits(state: ResolveStateView, event: ResolveEventView) -> bool {
    match state {
        ResolveStateView::SourceRequested { .. } => match event {
            ResolveEventView::SourceExtracted { .. } => true,
            ResolveEventView::FetchFailed { .. } => true,
            ResolveEventView::ExtractionFailed => true,
            _ => false,
        },
        ResolveStateView::SourceResolved { .. } => match event {
            ResolveEventView::TokensExtracted { .. } => true,
            ResolveEventView::FetchFailed { .. } => true,
            ResolveEventView::ExtractionFailed => true,
            _ => false,
        },
        ResolveStateView::TokensResolved { .. } => match event {
            ResolveEventView::Decoded { .. } => true,
            ResolveEventView::DecodeFailed => true,
            _ => false,
        },
        ResolveStateView::FilePageRequested { .. } => match event {
            ResolveEventView::BodyFetched { .. } => true,
            ResolveEventView::FetchFailed { .. } => true,
            ResolveEventView::ExtractionFailed => true,
            _ => false,
        },
        ResolveStateView::FileIdResolved { .. } => match event {
            ResolveEventView::Decoded { .. } => true,
            ResolveEventView::DecodeFailed => true,
            _ => false,
        },
        ResolveStateView::IndexResolved { .. } => match event {
            ResolveEventView::BodyFetched { .. } => true,
            ResolveEventView::FetchFailed { .. } => true,
            _ => false,
        },
        ResolveStateView::ManifestReady { .. } => false,
    }
}

/// What one step of the chain does: from the current state and the
/// outcome of its pending action, either the next state with its
/// pending action (`None` once the manifest is ready), or the error
/// that aborts this title's resolution, tagged with the step at which
/// it occurred. Only pairs that [`event_fits`] admits are ever
/// consumed; on any other pair the value here is immaterial.
pub open spec fn spec_step(state: ResolveStateView, event: ResolveEventView) -> Result<
    (ResolveStateView, Option<ResolveActionView>),
    VidsrcError,
> {
    match state {
        ResolveStateView::SourceRequested { .. } => match event {
            ResolveEventView::SourceExtracted { title, iframe_part } => {
                let player_url = https_scheme() + iframe_part;
                Ok(
                    (
                        ResolveStateView::SourceResolved { title, player_url },
                        Some(
                            ResolveActionView::FetchWithReferer {
                                url: player_url,
                                referer: referer_value(),
                            },
                        ),
                    ),
                )
            },
            ResolveEventView::FetchFailed { status } => Err(
                VidsrcError::Transport { step: ResolveStep::FetchSourcePage, status },
            ),
            _ => Err(VidsrcError::Extraction { step: ResolveStep::FetchSourcePage }),
        },
        ResolveStateView::SourceResolved { title, .. } => match event {
            ResolveEventView::TokensExtracted { token_a, token_b } => Ok(
                (
                    ResolveStateView::TokensResolved { title, token_a, token_b },
                    Some(
                        ResolveActionView::Decode {
                            purpose: DecodePurpose::FileIdUrl,
                            payload: seq![token_a, token_b],
                        },
                    ),
                ),
            ),
            ResolveEventView::FetchFailed { status } => Err(
                VidsrcError::Transport { step: ResolveStep::FetchHashPage, status },
            ),
            _ => Err(VidsrcError::Extraction { step: ResolveStep::FetchHashPage }),
        },
        ResolveStateView::TokensResolved { title, .. } => match event {
            ResolveEventView::Decoded { output } => {
                let file_page_url = https_scheme() + output;
                Ok(
                    (
                        ResolveStateView::FilePageRequested { title, file_page_url },
                        Some(
                            ResolveActionView::FetchWithReferer {
                                url: file_page_url,
                                referer: referer_value(),
                            },
                        ),
                    ),
                )
            },
            _ => Err(VidsrcError::Decode { step: ResolveStep::DecodeFileIdUrl }),
        },
        ResolveStateView::FilePageRequested { title, .. } => match event {
            ResolveEventView::BodyFetched { body } => match spec_extract_file_id(body) {
                Some(file_id) => Ok(
                    (
                        ResolveStateView::FileIdResolved { title, file_id },
                        Some(
                            ResolveActionView::Decode {
                                purpose: DecodePurpose::IndexUrl,
                                payload: seq![file_id],
                            },
                        ),
                    ),
                ),
                None => Err(VidsrcError::InvalidFileId),
            },
            ResolveEventView::FetchFailed { status } => Err(
                VidsrcError::Transport { step: ResolveStep::FetchFilePage, status },
            ),
            _ => Err(VidsrcError::Extraction { step: ResolveStep::FetchFilePage }),
        },
        ResolveStateView::FileIdResolved { title, .. } => match event {
            ResolveEventView::Decoded { output } => {
                let index_url = spec_trim(output);
                Ok(
                    (
                        ResolveStateView::IndexResolved { title, index_url },
                        Some(ResolveActionView::FetchPage { url: index_url }),
                    ),
                )
            },
            _ => Err(VidsrcError::Decode { step: ResolveStep::DecodeIndexUrl }),
        },
        ResolveStateView::IndexResolved { title, .. } => match event {
            ResolveEventView::BodyFetched { body } => Ok(
                (
                    ResolveStateView::ManifestReady {
                        manifest: ManifestView {
                            title,
                            index: spec_index(body),
                            season: None,
                            episode: None,
                        },
                    },
                    None,
                ),
            ),
            ResolveEventView::FetchFailed { status } => Err(
                VidsrcError::Transport { step: ResolveStep::FetchIndex, status },
            ),
            _ => Err(VidsrcError::Transport { step: ResolveStep::FetchIndex, status: None }),
        },
        ResolveStateView::ManifestReady { .. } => Err(VidsrcError::InvalidFileId),
    }
}

/// Starts the chain for one episode of a series: the episode's source
/// page is the first thing to fetch.
pub fn start_episode(episode: &Episode) -> (r: (ResolveState, ResolveAction))
    ensures
        r.0@ == (ResolveStateView::SourceRequested {
            endpoint: base_url() + episode@.data_iframe,
        }),
        r.1@ == (ResolveActionView::FetchPage { url: base_url() + episode@.data_iframe }),
{
    let url = episode_page_url(episode);
    let endpoint = url.clone();
    (
        ResolveState::SourceRequested { endpoint },
        ResolveAction::FetchPage { url },
    )
}

/// Starts the chain for an already-resolved source (a movie, whose
/// embed page names the player directly): the player page is the
/// first thing to fetch, carrying the referring origin.
pub fn start_source(source: VideoSource) -> (r: (ResolveState, ResolveAction))
    ensures
        r.0@ == (ResolveStateView::SourceResolved {
            title: source@.title,
            player_url: source@.data_iframe,
        }),
        r.1@ == (ResolveActionView::FetchWithReferer {
            url: source@.data_iframe,
            referer: referer_value(),
        }),
{
    let url = source.data_iframe.clone();
    let referer = referer_header();
    (
        ResolveState::SourceResolved { title: source.title, player_url: source.data_iframe },
        ResolveAction::FetchWithReferer { url, referer },
    )
}

/// Advances the chain by one step: consumes the outcome of the pending
/// action and returns the next state with its pending action, or the
/// error that aborts this title's resolution. The step is exactly
/// [`spec_step`] of the values involved.
pub fn resolve_step(state: ResolveState, event: ResolveEvent) -> (r: Result<
    (ResolveState, Option<ResolveAction>),
    VidsrcError,
>)
    requires
        event_fits(state@, event@),
    ensures
        match r {
            Ok((next, action)) => spec_step(state@, event@) == Ok::<
                (ResolveStateView, Option<ResolveActionView>),
                VidsrcError,
            >((next@, action_views(action))),
            Err(e) => spec_step(state@, event@) == Err::<
                (ResolveStateView, Option<ResolveActionView>),
                VidsrcError,
            >(e),
        },
{
    match state {
        ResolveState::SourceRequested { endpoint: _ } => match event {
            ResolveEvent::SourceExtracted { title, iframe_part } => {
                let player_url = https_url(iframe_part.as_str());
                let url = player_url.clone();
                let referer = referer_header();
                Ok(
                    (
                        ResolveState::SourceResolved { title, player_url },
                        Some(ResolveAction::FetchWithReferer { url, referer }),
                    ),
                )
            },
            ResolveEvent::FetchFailed { status } => Err(
                VidsrcError::Transport { step: ResolveStep::FetchSourcePage, status },
            ),
            _ => Err(VidsrcError::Extraction { step: ResolveStep::FetchSourcePage }),
        },
        ResolveState::SourceResolved { title, player_url: _ } => match event {
            ResolveEvent::TokensExtracted { token_a, token_b } => {
                let mut payload: Vec<String> = Vec::new();
                payload.push(token_a.clone());
                payload.push(token_b.clone());
                proof {
                    assert(payload.deep_view() =~= seq![token_a@, token_b@]);
                }
                Ok(
                    (
                        ResolveState::TokensResolved { title, token_a, token_b },
                        Some(
                            ResolveAction::Decode { purpose: DecodePurpose::FileIdUrl, payload },
                        ),
                    ),
                )
            },
            ResolveEvent::FetchFailed { status } => Err(
                VidsrcError::Transport { step: ResolveStep::FetchHashPage, status },
            ),
            _ => Err(VidsrcError::Extraction { step: ResolveStep::FetchHashPage }),
        },
        ResolveState::TokensResolved { title, token_a: _, token_b: _ } => match event {
            ResolveEvent::Decoded { output } => {
                let file_page_url = https_url(output.as_str());
                let url = file_page_url.clone();
                let referer = referer_header();
                Ok(
                    (
                        ResolveState::FilePageRequested { title, file_page_url },
                        Some(ResolveAction::FetchWithReferer { url, referer }),
                    ),
                )
            },
            _ => Err(VidsrcError::Decode { step: ResolveStep::DecodeFileIdUrl }),
        },
        ResolveState::FilePageRequested { title, file_page_url: _ } => match event {
            ResolveEvent::BodyFetched { body } => match extract_file_id(body.as_str()) {
                Some(file_id) => {
                    let mut payload: Vec<String> = Vec::new();
                    payload.push(file_id.clone());
                    proof {
                        assert(payload.deep_view() =~= seq![file_id@]);
                    }
                    Ok(
                        (
                            ResolveState::FileIdResolved { title, file_id },
                            Some(
                                ResolveAction::Decode { purpose: DecodePurpose::IndexUrl, payload },
                            ),
                        ),
                    )
                },
                None => Err(VidsrcError::InvalidFileId),
            },
            ResolveEvent::FetchFailed { status } => Err(
                VidsrcError::Transport { step: ResolveStep::FetchFilePage, status },
            ),
            _ => Err(VidsrcError::Extraction { step: ResolveStep::FetchFilePage }),
        },
        ResolveState::FileIdResolved { title, file_id: _ } => match event {
            ResolveEvent::Decoded { output } => {
                let index_url = trim_blank(output.as_str());
                let url = index_url.clone();
                Ok(
                    (
                        ResolveState::IndexResolved { title, index_url },
                        Some(ResolveAction::FetchPage { url }),
                    ),
                )
            },
            _ => Err(VidsrcError::Decode { step: ResolveStep::DecodeIndexUrl }),
        },
        ResolveState::IndexResolved { title, index_url: _ } => match event {
            ResolveEvent::BodyFetched { body } => {
                let index = index_from_text(body.as_str());
                Ok(
                    (
                        ResolveState::ManifestReady {
                            manifest: Manifest { title, index, season: None, episode: None },
                        },
                        None,
                    ),
                )
            },
            ResolveEvent::FetchFailed { status } => Err(
                VidsrcError::Transport { step: ResolveStep::FetchIndex, status },
            ),
            _ => {
                proof {
                    assert(false);
                }
                Err(VidsrcError::Transport { step: ResolveStep::FetchIndex, status: None })
            },
        },
        ResolveState::ManifestReady { .. } => {
            proof {
                assert(false);
            }
            Err(VidsrcError::InvalidFileId)
        },
    }
}

// ------------------------------------------------------------------
// Whole-chain runs
// ------------------------------------------------------------------

/// The outcome of driving the chain from `state` with the given
/// event sequence: the finished manifest, the error that aborted the
/// run, or `None` if the events run out (or one does not fit) before
/// either.
pub open spec fn spec_run(state: ResolveStateView, events: Seq<ResolveEventView>) -> Option<
    Result<ManifestView, VidsrcError>,
>
    decreases events.len(),
{
    match state {
        ResolveStateView::ManifestReady { manifest } => Some(Ok(manifest)),
        _ => {
            if events.len() == 0 {
                None
            } else if !event_fits(state, events[0]) {
                None
            } else {
                match spec_step(state, events[0]) {
                    Ok((next, _)) => spec_run(next, events.drop_first()),
                    Err(e) => Some(Err(e)),
                }
            }
        },
    }
}

/// Resolution is deterministic: the chain adds no randomness of its
/// own, so two runs from the same state whose fetches and decodes are
/// answered identically produce the identical outcome — the same
/// manifest, byte for byte, or the same error.
pub proof fn lemma_resolution_deterministic(
    state: ResolveStateView,
    events1: Seq<ResolveEventView>,
    events2: Seq<ResolveEventView>,
)
    requires
        events1 == events2,
    ensures
        spec_run(state, events1) == spec_run(state, events2),
{
}

} // verus!
