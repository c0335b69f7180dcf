use vidpipe::errors::{ResolveStep, VidsrcError};
use vidpipe::manifest::{Episode, Manifest, VideoSource};
use vidpipe::resolver::{
    embed_url, filter_episodes, https_url, referer_header, resolve_step, start_episode,
    start_source, DecodePurpose, EpisodeFilter, ResolveAction, ResolveEvent, ResolveState,
};

fn source() -> VideoSource {
    VideoSource {
        title: "Some Movie".to_string(),
        data_iframe: "https://player.example/embed/1".to_string(),
    }
}

fn episode(title: &str, iframe: &str, season: &str, episode: &str) -> Episode {
    Episode {
        title: title.to_string(),
        data_iframe: iframe.to_string(),
        season: season.to_string(),
        episode: episode.to_string(),
    }
}

/// Drives the chain over a scripted sequence of action outcomes.
fn run(source: VideoSource, events: Vec<ResolveEvent>) -> Result<Manifest, VidsrcError> {
    let (mut state, _action) = start_source(source);
    for event in events {
        match resolve_step(state, event) {
            Ok((next, _action)) => state = next,
            Err(e) => return Err(e),
        }
    }
    match state {
        ResolveState::ManifestReady { manifest } => Ok(manifest),
        other => panic!("chain did not finish: {other:?}"),
    }
}

fn happy_events() -> Vec<ResolveEvent> {
    vec![
        ResolveEvent::TokensExtracted {
            token_a: "tok-a".to_string(),
            token_b: "tok-b".to_string(),
        },
        ResolveEvent::Decoded { output: "//files.example/page/9".to_string() },
        ResolveEvent::BodyFetched {
            body: "player({file:\"ENCODED123\",label:\"hd\"})".to_string(),
        },
        ResolveEvent::Decoded { output: " https://cdn.example/index.m3u8\n".to_string() },
        ResolveEvent::BodyFetched {
            body: "#EXTM3U\nhttps://cdn.example/seg1.ts\nhttps://cdn.example/seg2.ts\n"
                .to_string(),
        },
    ]
}

#[test]
fn full_chain_produces_the_manifest() {
    let manifest = run(source(), happy_events()).expect("chain succeeds");
    assert_eq!(manifest.title, "Some Movie");
    assert_eq!(
        manifest.index,
        vec![
            "https://cdn.example/seg1.ts".to_string(),
            "https://cdn.example/seg2.ts".to_string(),
        ]
    );
    assert_eq!(manifest.season, None);
    assert_eq!(manifest.episode, None);
}

#[test]
fn resolution_is_idempotent_under_a_deterministic_environment() {
    let first = run(source(), happy_events());
    let second = run(source(), happy_events());
    assert_eq!(first, second);
}

#[test]
fn chain_actions_carry_the_right_urls_and_referer() {
    let (state, action) = start_source(source());
    match &action {
        ResolveAction::FetchWithReferer { url, referer } => {
            assert_eq!(url, "https://player.example/embed/1");
            assert_eq!(referer, "https://vidsrc.xyz/");
        }
        other => panic!("unexpected action: {other:?}"),
    }

    let (state, action) = resolve_step(
        state,
        ResolveEvent::TokensExtracted {
            token_a: "tok-a".to_string(),
            token_b: "tok-b".to_string(),
        },
    )
    .expect("tokens step");
    match &action {
        Some(ResolveAction::Decode { purpose, payload }) => {
            assert_eq!(*purpose, DecodePurpose::FileIdUrl);
            assert_eq!(payload, &vec!["tok-a".to_string(), "tok-b".to_string()]);
        }
        other => panic!("unexpected action: {other:?}"),
    }

    let (state, action) = resolve_step(
        state,
        ResolveEvent::Decoded { output: "//files.example/page/9".to_string() },
    )
    .expect("first decode step");
    match &action {
        Some(ResolveAction::FetchWithReferer { url, referer }) => {
            assert_eq!(url, "https://files.example/page/9");
            assert_eq!(referer, "https://vidsrc.xyz/");
        }
        other => panic!("unexpected action: {other:?}"),
    }

    let (state, action) = resolve_step(
        state,
        ResolveEvent::BodyFetched { body: "x file:\"ENC\", y".to_string() },
    )
    .expect("file id step");
    match &action {
        Some(ResolveAction::Decode { purpose, payload }) => {
            assert_eq!(*purpose, DecodePurpose::IndexUrl);
            assert_eq!(payload, &vec!["ENC".to_string()]);
        }
        other => panic!("unexpected action: {other:?}"),
    }

    let (_state, action) = resolve_step(
        state,
        ResolveEvent::Decoded { output: "https://cdn.example/i.m3u8\n".to_string() },
    )
    .expect("second decode step");
    match &action {
        Some(ResolveAction::FetchPage { url }) => {
            assert_eq!(url, "https://cdn.example/i.m3u8");
        }
        other => panic!("unexpected action: {other:?}"),
    }
}

#[test]
fn episode_chain_starts_at_its_source_page() {
    let ep = episode("Pilot", "/epframe/42", "1", "1");
    let (state, action) = start_episode(&ep);
    match &action {
        ResolveAction::FetchPage { url } => {
            assert_eq!(url, "https://vidsrc.xyz/epframe/42");
        }
        other => panic!("unexpected action: {other:?}"),
    }
    let (state, action) = resolve_step(
        state,
        ResolveEvent::SourceExtracted {
            title: "Pilot".to_string(),
            iframe_part: "//player.example/embed/7".to_string(),
        },
    )
    .expect("source step");
    match &action {
        Some(ResolveAction::FetchWithReferer { url, referer }) => {
            assert_eq!(url, "https://player.example/embed/7");
            assert_eq!(referer, "https://vidsrc.xyz/");
        }
        other => panic!("unexpected action: {other:?}"),
    }
    match state {
        ResolveState::SourceResolved { title, player_url } => {
            assert_eq!(title, "Pilot");
            assert_eq!(player_url, "https://player.example/embed/7");
        }
        other => panic!("unexpected state: {other:?}"),
    }
}

#[test]
fn a_missing_file_id_marker_is_an_invalid_file_id() {
    let mut events = happy_events();
    events[2] = ResolveEvent::BodyFetched { body: "no marker here".to_string() };
    assert_eq!(run(source(), events), Err(VidsrcError::InvalidFileId));
}

#[test]
fn each_step_failure_is_tagged_with_its_step() {
    let failed = |events: Vec<ResolveEvent>| run(source(), events);

    assert_eq!(
        failed(vec![ResolveEvent::FetchFailed { status: Some(502) }]),
        Err(VidsrcError::Transport { step: ResolveStep::FetchHashPage, status: Some(502) })
    );
    assert_eq!(
        failed(vec![ResolveEvent::ExtractionFailed]),
        Err(VidsrcError::Extraction { step: ResolveStep::FetchHashPage })
    );

    let mut events = happy_events();
    events.truncate(1);
    events.push(ResolveEvent::DecodeFailed);
    assert_eq!(
        failed(events),
        Err(VidsrcError::Decode { step: ResolveStep::DecodeFileIdUrl })
    );

    let mut events = happy_events();
    events.truncate(2);
    events.push(ResolveEvent::FetchFailed { status: None });
    assert_eq!(
        failed(events),
        Err(VidsrcError::Transport { step: ResolveStep::FetchFilePage, status: None })
    );

    let mut events = happy_events();
    events.truncate(3);
    events.push(ResolveEvent::DecodeFailed);
    assert_eq!(
        failed(events),
        Err(VidsrcError::Decode { step: ResolveStep::DecodeIndexUrl })
    );

    let mut events = happy_events();
    events.truncate(4);
    events.push(ResolveEvent::FetchFailed { status: Some(404) });
    assert_eq!(
        failed(events),
        Err(VidsrcError::Transport { step: ResolveStep::FetchIndex, status: Some(404) })
    );

    let ep = episode("Pilot", "/epframe/42", "1", "1");
    let (state, _action) = start_episode(&ep);
    let r = resolve_step(state, ResolveEvent::FetchFailed { status: Some(500) });
    assert_eq!(
        r.err(),
        Some(VidsrcError::Transport { step: ResolveStep::FetchSourcePage, status: Some(500) })
    );
}

#[test]
fn a_fixed_predicate_selects_exactly_its_episodes() {
    let mut episodes: Vec<Episode> = Vec::new();
    for season in ["1", "2", "3"] {
        for number in ["6", "7", "8"] {
            episodes.push(episode(
                &format!("S{season}E{number}"),
                &format!("/epframe/{season}/{number}"),
                season,
                number,
            ));
        }
    }
    episodes.push(episode("Special", "/epframe/sp", "3", "0"));
    assert_eq!(episodes.len(), 10);

    let filter = EpisodeFilter::SeasonEpisodes {
        season: "3".to_string(),
        episodes: vec!["7".to_string(), "8".to_string()],
    };
    let selected = filter_episodes(&episodes, &filter);
    assert_eq!(selected.len(), 2);
    assert_eq!(selected[0].title, "S3E7");
    assert_eq!(selected[1].title, "S3E8");

    let all = filter_episodes(&episodes, &EpisodeFilter::All);
    assert_eq!(all, episodes);

    let default = filter_episodes(&episodes, &EpisodeFilter::default());
    assert_eq!(default, episodes);
}

#[test]
fn url_builders_compose_the_fixed_locations() {
    assert_eq!(embed_url("tt1234567"), "https://vidsrc.xyz/embed/tt1234567");
    assert_eq!(https_url("//player.example/e/5"), "https://player.example/e/5");
    assert_eq!(referer_header(), "https://vidsrc.xyz/");
}
