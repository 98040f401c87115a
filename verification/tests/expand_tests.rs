use media_dispatch::catalog::{AlbumTrack, ArtistAlbum, Episode};
use media_dispatch::choice::UnitOrigin;
use media_dispatch::expand::{
    album_ids_of_listing, collect_pages, expand_track, units_of_album_tracks, units_of_episodes,
    PageWalk, PAGE_LIMIT,
};

fn page(prefix: &str, n: usize) -> Vec<String> {
    (0..n).map(|i| format!("{}{}", prefix, i)).collect()
}

#[test]
fn pagination_stops_at_the_first_short_page() {
    // Pages of 50, 50 and 23 items: the traversal collects all 123 and
    // requests exactly three pages, never touching a fourth.
    let pages = vec![page("a", 50), page("b", 50), page("c", 23), page("never", 50)];
    let (units, requests) = collect_pages(pages);
    assert_eq!(units.len(), 123);
    assert_eq!(requests, 3);
    assert_eq!(units[0], "a0");
    assert_eq!(units[50], "b0");
    assert_eq!(units[100], "c0");
    assert_eq!(units[122], "c22");
}

#[test]
fn pagination_consumes_every_full_page_when_none_is_short() {
    let pages = vec![page("a", 50), page("b", 50)];
    let (units, requests) = collect_pages(pages);
    assert_eq!(units.len(), 100);
    assert_eq!(requests, 2);
}

#[test]
fn a_short_first_page_ends_the_traversal_at_once() {
    let pages = vec![page("a", 12), page("b", 50)];
    let (units, requests) = collect_pages(pages);
    assert_eq!(units.len(), 12);
    assert_eq!(requests, 1);
}

#[test]
fn an_empty_page_list_collects_nothing() {
    let (units, requests) = collect_pages(Vec::<Vec<String>>::new());
    assert!(units.is_empty());
    assert_eq!(requests, 0);
}

#[test]
fn offsets_advance_by_the_page_size() {
    let mut walk: PageWalk<String> = PageWalk::new();
    assert_eq!(walk.next_offset(), 0);
    assert!(!walk.is_finished());
    walk.absorb(page("a", PAGE_LIMIT));
    assert_eq!(walk.next_offset(), 50);
    assert!(!walk.is_finished());
    walk.absorb(page("b", PAGE_LIMIT));
    assert_eq!(walk.next_offset(), 100);
    walk.absorb(page("c", 7));
    assert!(walk.is_finished());
    assert_eq!(walk.next_offset(), 100);
    assert_eq!(walk.into_collected().len(), 107);
}

#[test]
fn a_track_choice_expands_to_itself() {
    let us = expand_track(&"t42".to_string());
    assert_eq!(us.len(), 1);
    assert_eq!(us[0].id, "t42");
    assert_eq!(us[0].origin, UnitOrigin::TrackRef);
}

#[test]
fn album_tracks_become_units_in_listing_order() {
    let tracks: Vec<AlbumTrack> = (0..3)
        .map(|i| AlbumTrack { id: format!("t{}", i), name: format!("T{}", i) })
        .collect();
    let us = units_of_album_tracks(&tracks);
    assert_eq!(us.len(), 3);
    for i in 0..3 {
        assert_eq!(us[i].id, format!("t{}", i));
        assert_eq!(us[i].origin, UnitOrigin::TrackRef);
    }
}

#[test]
fn artist_listing_yields_album_ids_in_order() {
    let listing: Vec<ArtistAlbum> = (0..3)
        .map(|i| ArtistAlbum { id: format!("al{}", i), name: format!("Album {}", i) })
        .collect();
    let ids = album_ids_of_listing(&listing);
    assert_eq!(ids, vec!["al0".to_string(), "al1".to_string(), "al2".to_string()]);
}

#[test]
fn episodes_become_episode_units() {
    let eps: Vec<Episode> = (0..2)
        .map(|i| Episode {
            id: 7000 + i,
            title: format!("E{}", i),
            link: "l".to_string(),
            description: "d".to_string(),
            enclosure_url: "e".to_string(),
        })
        .collect();
    let us = units_of_episodes(&eps);
    assert_eq!(us.len(), 2);
    assert_eq!(us[0].id, "7000");
    assert_eq!(us[1].id, "7001");
    assert_eq!(us[0].origin, UnitOrigin::EpisodeRef);
}
