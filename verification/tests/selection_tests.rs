use media_dispatch::catalog::{Album, Artist, PodcastFeed, Track};
use media_dispatch::choice::ChoiceKind;
use media_dispatch::selection::{
    build_group, build_podcast_group, join_preview, render_album, render_artist, render_track,
};
use media_dispatch::titles::{split_titles, trim_line};

fn artist(id: &str, name: &str) -> Artist {
    Artist { id: id.to_string(), name: name.to_string() }
}

fn album(id: &str, name: &str, artist_name: &str) -> Album {
    Album {
        id: id.to_string(),
        release_date: "2020-01-01".to_string(),
        name: name.to_string(),
        artists: vec![artist("ar", artist_name)],
    }
}

fn track(id: &str, name: &str) -> Track {
    Track { id: id.to_string(), name: name.to_string(), album: album("al", "Some Album", "Some Artist") }
}

fn tracks(n: usize) -> Vec<Track> {
    (0..n).map(|i| track(&format!("t{}", i), &format!("Track {}", i))).collect()
}

fn albums(n: usize) -> Vec<Album> {
    (0..n).map(|i| album(&format!("a{}", i), &format!("Album {}", i), "X")).collect()
}

fn artists(n: usize) -> Vec<Artist> {
    (0..n).map(|i| artist(&format!("r{}", i), &format!("Artist {}", i))).collect()
}

#[test]
fn album_shortfall_raises_track_count() {
    // 2 albums and 5 artists available: the 3 missing albums become track
    // slots, so 13 tracks, 2 albums, 3 artists.
    let g = build_group(&tracks(20), &albums(2), &artists(5));
    let n_tracks = g.iter().filter(|c| c.kind == ChoiceKind::Track).count();
    let n_albums = g.iter().filter(|c| c.kind == ChoiceKind::Album).count();
    let n_artists = g.iter().filter(|c| c.kind == ChoiceKind::Artist).count();
    assert_eq!(n_tracks, 13);
    assert_eq!(n_albums, 2);
    assert_eq!(n_artists, 3);
    assert_eq!(g.len(), 18);
}

#[test]
fn artist_shortfall_raises_track_count() {
    let g = build_group(&tracks(20), &albums(7), &artists(1));
    let n_tracks = g.iter().filter(|c| c.kind == ChoiceKind::Track).count();
    let n_albums = g.iter().filter(|c| c.kind == ChoiceKind::Album).count();
    let n_artists = g.iter().filter(|c| c.kind == ChoiceKind::Artist).count();
    assert_eq!(n_tracks, 12);
    assert_eq!(n_albums, 5);
    assert_eq!(n_artists, 1);
}

#[test]
fn full_quotas_when_everything_is_available() {
    let g = build_group(&tracks(30), &albums(9), &artists(9));
    assert_eq!(g.len(), 18);
    assert_eq!(g.iter().filter(|c| c.kind == ChoiceKind::Track).count(), 10);
    assert_eq!(g.iter().filter(|c| c.kind == ChoiceKind::Album).count(), 5);
    assert_eq!(g.iter().filter(|c| c.kind == ChoiceKind::Artist).count(), 3);
}

#[test]
fn group_is_ordered_tracks_then_albums_then_artists() {
    let g = build_group(&tracks(20), &albums(2), &artists(5));
    for i in 0..13 {
        assert_eq!(g[i].kind, ChoiceKind::Track);
        assert_eq!(g[i].id, format!("t{}", i));
    }
    for i in 0..2 {
        assert_eq!(g[13 + i].kind, ChoiceKind::Album);
        assert_eq!(g[13 + i].id, format!("a{}", i));
    }
    for i in 0..3 {
        assert_eq!(g[15 + i].kind, ChoiceKind::Artist);
        assert_eq!(g[15 + i].id, format!("r{}", i));
    }
}

#[test]
fn scenario_one_album_one_artist_fifteen_tracks() {
    // Both quotas fall short: 4 missing albums and 2 missing artists raise
    // the track quota to 16, capped by the 15 tracks available. The group
    // totals 15 + 1 + 1 choices, tracks first.
    let g = build_group(&tracks(15), &albums(1), &artists(1));
    let n_tracks = g.iter().filter(|c| c.kind == ChoiceKind::Track).count();
    assert_eq!(n_tracks, 15);
    assert_eq!(g.iter().filter(|c| c.kind == ChoiceKind::Album).count(), 1);
    assert_eq!(g.iter().filter(|c| c.kind == ChoiceKind::Artist).count(), 1);
    assert_eq!(g.len(), 17);
    assert_eq!(g[15].kind, ChoiceKind::Album);
    assert_eq!(g[16].kind, ChoiceKind::Artist);
}

#[test]
fn scenario_select_two_song_lines() {
    // The select flow of one request: two title lines, and for the first
    // the gateway returns 15 tracks, 1 album and full artists. The album
    // quota shortfall of 4 raises the track quota to 14; 15 tracks are
    // available, so exactly 14 are taken, tracks first.
    let lines = split_titles("Song A\nSong B");
    assert_eq!(lines, vec!["Song A".to_string(), "Song B".to_string()]);

    let g = build_group(&tracks(15), &albums(1), &artists(3));
    let n_tracks = g.iter().filter(|c| c.kind == ChoiceKind::Track).count();
    assert_eq!(n_tracks, 14);
    assert_eq!(g.iter().filter(|c| c.kind == ChoiceKind::Album).count(), 1);
    assert_eq!(g.iter().filter(|c| c.kind == ChoiceKind::Artist).count(), 3);
    assert_eq!(g.len(), 18);
    for i in 0..14 {
        assert_eq!(g[i].kind, ChoiceKind::Track);
        assert_eq!(g[i].id, format!("t{}", i));
    }
    assert_eq!(g[14].kind, ChoiceKind::Album);
    assert_eq!(g[14].id, "a0");
    assert_eq!(g[15].kind, ChoiceKind::Artist);
}

#[test]
fn podcast_group_keeps_provider_order() {
    let feeds: Vec<PodcastFeed> = (0..4)
        .map(|i| PodcastFeed {
            id: 100 + i,
            title: format!("Feed {}", i),
            author: "A".to_string(),
            description: "D".to_string(),
            url: "u".to_string(),
            artwork: "w".to_string(),
        })
        .collect();
    let g = build_podcast_group(&feeds);
    assert_eq!(g.len(), 4);
    for i in 0..4 {
        assert_eq!(g[i].kind, ChoiceKind::Podcast);
        assert_eq!(g[i].id, format!("{}", 100 + i));
    }
}

#[test]
fn rendered_previews_use_the_expected_wording() {
    let t = track("t", "Hello");
    assert_eq!(render_track(&t), "Track: Hello - Some Artist [Some Album]");
    let a = album("a", "Blue", "Muddy");
    assert_eq!(render_album(&a), "Album: Blue - Muddy");
    let r = artist("r", "Etta");
    assert_eq!(render_artist(&r), "Artist: Etta");
}

#[test]
fn preview_lines_join_with_triple_bars() {
    let lines = vec!["one".to_string(), "two".to_string(), "three".to_string()];
    assert_eq!(join_preview(&lines), "one|||two|||three");
    assert_eq!(join_preview(&vec![]), "");
    assert_eq!(join_preview(&vec!["solo".to_string()]), "solo");
}

#[test]
fn titles_are_trimmed_and_blank_lines_dropped() {
    let ts = split_titles("  Song A \n\n\tSong B\r\n   \nSong C");
    assert_eq!(
        ts,
        vec!["Song A".to_string(), "Song B".to_string(), "Song C".to_string()]
    );
    assert_eq!(split_titles(""), Vec::<String>::new());
    assert_eq!(split_titles(" \n \n "), Vec::<String>::new());
}

#[test]
fn trim_strips_both_ends_only() {
    assert_eq!(trim_line("  a b  "), "a b");
    assert_eq!(trim_line("ab"), "ab");
    assert_eq!(trim_line("   "), "");
    assert_eq!(trim_line(""), "");
}
