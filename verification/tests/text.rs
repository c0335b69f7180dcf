use vidpipe::artifact::{artifact_file_name, artifact_relative_path, season_dir_name};
use vidpipe::manifest::{with_coordinates, Manifest};
use vidpipe::text::{extract_file_id, index_from_text, trim_blank};

#[test]
fn index_keeps_only_secure_url_lines_in_order() {
    let body = "#EXTM3U\n#EXT-X-VERSION:3\nhttps://cdn.example/a.ts\nftp://elsewhere/b\nhttps://cdn.example/b.ts\n\nhttp://insecure.example/c.ts\nhttps://cdn.example/c.ts";
    let index = index_from_text(body);
    assert_eq!(
        index,
        vec![
            "https://cdn.example/a.ts".to_string(),
            "https://cdn.example/b.ts".to_string(),
            "https://cdn.example/c.ts".to_string(),
        ]
    );
}

#[test]
fn index_handles_carriage_returns_and_trailing_newlines() {
    let body = "https://cdn.example/a.ts\r\nhttps://cdn.example/b.ts\r\n";
    let index = index_from_text(body);
    assert_eq!(
        index,
        vec![
            "https://cdn.example/a.ts".to_string(),
            "https://cdn.example/b.ts".to_string(),
        ]
    );
}

#[test]
fn empty_document_yields_an_empty_index() {
    assert!(index_from_text("").is_empty());
    assert!(index_from_text("#comment\n#another\n").is_empty());
}

#[test]
fn a_bare_scheme_is_no_segment_location() {
    // The scheme alone, or the scheme and separator with nothing
    // after them, names no location; only a well-formed absolute
    // secure URL is kept.
    let body = "https\nhttps:\nhttps:/\nhttps://\nhttpsx://cdn.example/a.ts\nhttps://x";
    assert_eq!(index_from_text(body), vec!["https://x".to_string()]);
}

#[test]
fn file_id_is_the_run_between_the_markers() {
    let body = "var player = setup({sources:[{file:\"ABCdef123==\",label:\"auto\"}]});";
    assert_eq!(extract_file_id(body), Some("ABCdef123==".to_string()));
}

#[test]
fn file_id_takes_the_first_marker_pair() {
    let body = "file:\"first\", and later file:\"second\",";
    assert_eq!(extract_file_id(body), Some("first".to_string()));
}

#[test]
fn missing_or_unclosed_marker_yields_no_file_id() {
    assert_eq!(extract_file_id("nothing to see"), None);
    assert_eq!(extract_file_id("file:\"never closed"), None);
    assert_eq!(extract_file_id("almost file:'quoted wrong',"), None);
}

#[test]
fn empty_file_id_is_still_extracted() {
    assert_eq!(extract_file_id("file:\"\","), Some(String::new()));
}

#[test]
fn trim_drops_surrounding_blank_space() {
    assert_eq!(trim_blank(" https://cdn.example/i.m3u8\n"), "https://cdn.example/i.m3u8");
    assert_eq!(trim_blank("\t\r\n x y \r\n"), "x y");
    assert_eq!(trim_blank(""), "");
    assert_eq!(trim_blank(" \n\t "), "");
    assert_eq!(trim_blank("bare"), "bare");
}

#[test]
fn artifact_names_derive_from_title_and_season() {
    assert_eq!(artifact_file_name("Some Movie"), "Some Movie.mp4");
    assert_eq!(season_dir_name("3"), "Season 03");
    assert_eq!(season_dir_name("12"), "Season 12");
    assert_eq!(season_dir_name(""), "Season 00");
}

#[test]
fn artifact_path_places_episodes_under_their_season() {
    let movie = Manifest {
        title: "Some Movie".to_string(),
        index: Vec::new(),
        season: None,
        episode: None,
    };
    assert_eq!(artifact_relative_path(&movie, None), "Some Movie.mp4");

    let plain = Manifest {
        title: "Show S3E7".to_string(),
        index: Vec::new(),
        season: None,
        episode: None,
    };
    let episode = with_coordinates(plain, "3".to_string(), "7".to_string());
    assert_eq!(episode.season, Some("3".to_string()));
    assert_eq!(episode.episode, Some("7".to_string()));
    assert_eq!(artifact_relative_path(&episode, None), "Season 03/Show S3E7.mp4");

    let base = "Some Show".to_string();
    assert_eq!(
        artifact_relative_path(&episode, Some(&base)),
        "Some Show/Season 03/Show S3E7.mp4"
    );
}

#[test]
fn progress_display_starts_blank() {
    let app = vidpipe::progress::App::new();
    assert_eq!(app.title, None);
    assert_eq!(app.percentages, vec![0, 0, 0, 0]);

    let mut app = app;
    app.set_percent(2, 50);
    assert_eq!(app.percentages, vec![0, 0, 50, 0]);
    assert_eq!(app.percent_of(2), 50);
    assert_eq!(app.percent_of(0), 0);
}
