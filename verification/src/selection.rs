//! Ranking and truncation of search results into the ordered choice list
//! of one group: a fixed track quota that absorbs the shortfall of the
//! album and artist quotas, with tracks first, then albums, then artists,
//! each in provider-ranked order.

use vstd::prelude::*;

use crate::catalog::{Album, Artist, Items, PodcastFeed, SpotifySearchResponse, Track};
use crate::choice::{Choice, ChoiceKind};
use crate::digits::{i64_string, spec_idigits};

verus! {

/// Target number of track choices per query before quota shortfall is
/// added.
pub const TRACK_QUOTA: usize = 10;

/// Target number of album choices per query.
pub const ALBUM_QUOTA: usize = 5;

/// Target number of artist choices per query.
pub const ARTIST_QUOTA: usize = 3;

/// How many album choices a group gets: the quota, or all albums when
/// fewer are available.
pub open spec fn album_take(n_albums: int) -> int {
    if n_albums < ALBUM_QUOTA as int {
        n_albums
    } else {
        ALBUM_QUOTA as int
    }
}

/// How many artist choices a group gets: the quota, or all artists when
/// fewer are available.
pub open spec fn artist_take(n_artists: int) -> int {
    if n_artists < ARTIST_QUOTA as int {
        n_artists
    } else {
        ARTIST_QUOTA as int
    }
}

/// The track quota after absorbing the album and artist shortfalls.
pub open spec fn track_quota(n_albums: int, n_artists: int) -> int {
    TRACK_QUOTA as int + (ALBUM_QUOTA as int - album_take(n_albums)) + (ARTIST_QUOTA as int
        - artist_take(n_artists))
}

/// How many track choices a group gets: the adaptive quota, capped by the
/// tracks available.
pub open spec fn track_take(n_tracks: int, n_albums: int, n_artists: int) -> int {
    if n_tracks < track_quota(n_albums, n_artists) {
        n_tracks
    } else {
        track_quota(n_albums, n_artists)
    }
}

/// The choice a track candidate becomes.
pub open spec fn track_choice(t: Track) -> Choice {
    Choice { kind: ChoiceKind::Track, id: t.id }
}

/// The choice an album candidate becomes.
pub open spec fn album_choice(a: Album) -> Choice {
    Choice { kind: ChoiceKind::Album, id: a.id }
}

/// The choice an artist candidate becomes.
pub open spec fn artist_choice(a: Artist) -> Choice {
    Choice { kind: ChoiceKind::Artist, id: a.id }
}

/// The choice list of one group: the truncated tracks, then the truncated
/// albums, then the truncated artists, each in provider order.
pub open spec fn spec_group(tracks: Seq<Track>, albums: Seq<Album>, artists: Seq<Artist>) -> Seq<
    Choice,
> {
    tracks.take(track_take(tracks.len() as int, albums.len() as int, artists.len() as int))
        .map_values(|t: Track| track_choice(t)) + albums.take(album_take(albums.len() as int))
        .map_values(|a: Album| album_choice(a)) + artists.take(artist_take(artists.len() as int))
        .map_values(|a: Artist| artist_choice(a))
}

/// When fewer albums are available than the album quota asks for, every
/// missing album becomes one extra track slot and the album count is
/// exactly what is available; the artist quota behaves the same way with
/// its own threshold.
pub proof fn lemma_quota_shortfall(n_albums: int, n_artists: int)
    requires
        n_albums >= 0,
        n_artists >= 0,
    ensures
        n_albums < ALBUM_QUOTA as int ==> album_take(n_albums) == n_albums && track_quota(
            n_albums,
            n_artists,
        ) == TRACK_QUOTA as int + (ALBUM_QUOTA as int - n_albums) + (ARTIST_QUOTA as int
            - artist_take(n_artists)),
        n_artists < ARTIST_QUOTA as int ==> artist_take(n_artists) == n_artists && track_quota(
            n_albums,
            n_artists,
        ) == TRACK_QUOTA as int + (ALBUM_QUOTA as int - album_take(n_albums)) + (
        ARTIST_QUOTA as int - n_artists),
        n_albums >= ALBUM_QUOTA as int && n_artists >= ARTIST_QUOTA as int ==> track_quota(
            n_albums,
            n_artists,
        ) == TRACK_QUOTA as int,
{
}

/// Within one group the choices are always the tracks, then the albums,
/// then the artists, each slice in provider-returned order and carrying
/// the provider's identifiers.
pub proof fn lemma_group_order(tracks: Seq<Track>, albums: Seq<Album>, artists: Seq<Artist>)
    ensures
        ({
            let tt = track_take(tracks.len() as int, albums.len() as int, artists.len() as int);
            let at = album_take(albums.len() as int);
            let rt = artist_take(artists.len() as int);
            let g = spec_group(tracks, albums, artists);
            &&& g.len() == tt + at + rt
            &&& forall|i: int|
                0 <= i < tt ==> (#[trigger] g[i]).kind == ChoiceKind::Track && g[i].id
                    == tracks[i].id
            &&& forall|i: int|
                tt <= i < tt + at ==> (#[trigger] g[i]).kind == ChoiceKind::Album && g[i].id
                    == albums[i - tt].id
            &&& forall|i: int|
                tt + at <= i < tt + at + rt ==> (#[trigger] g[i]).kind == ChoiceKind::Artist
                    && g[i].id == artists[i - tt - at].id
        }),
{
}

/// Builds the choice list of one group from the three ranked candidate
/// lists one music query returned.
pub fn build_group(tracks: &Vec<Track>, albums: &Vec<Album>, artists: &Vec<Artist>) -> (g: Vec<
    Choice,
>)
    ensures
        g@ == spec_group(tracks@, albums@, artists@),
{
    let mut track_count: usize = TRACK_QUOTA;
    let mut album_count: usize = ALBUM_QUOTA;
    let mut artist_count: usize = ARTIST_QUOTA;

    if albums.len() < album_count {
        track_count += album_count - albums.len();
        album_count = albums.len();
    }
    if artists.len() < artist_count {
        track_count += artist_count - artists.len();
        artist_count = artists.len();
    }
    if tracks.len() < track_count {
        track_count = tracks.len();
    }

    proof {
        assert(album_count as int == album_take(albums@.len() as int));
        assert(artist_count as int == artist_take(artists@.len() as int));
        assert(track_count as int == track_take(
            tracks@.len() as int,
            albums@.len() as int,
            artists@.len() as int,
        ));
    }

    let ghost track_part = tracks@.take(track_count as int).map_values(
        |t: Track| track_choice(t),
    );
    let ghost album_part = albums@.take(album_count as int).map_values(
        |a: Album| album_choice(a),
    );
    let ghost artist_part = artists@.take(artist_count as int).map_values(
        |a: Artist| artist_choice(a),
    );

    let mut g: Vec<Choice> = Vec::new();
    let mut i: usize = 0;
    while i < track_count
        invariant
            track_count <= tracks@.len(),
            i <= track_count,
            g@ == tracks@.take(i as int).map_values(|t: Track| track_choice(t)),
        decreases track_count - i,
    {
        g.push(Choice { kind: ChoiceKind::Track, id: tracks[i].id.clone() });
        proof {
            assert(g@ =~= tracks@.take(i + 1 as int).map_values(|t: Track| track_choice(t)));
        }
        i += 1;
    }
    proof {
        assert(g@ == track_part);
    }

    let mut i: usize = 0;
    while i < album_count
        invariant
            album_count <= albums@.len(),
            i <= album_count,
            g@ == track_part + albums@.take(i as int).map_values(|a: Album| album_choice(a)),
        decreases album_count - i,
    {
        g.push(Choice { kind: ChoiceKind::Album, id: albums[i].id.clone() });
        proof {
            assert(g@ =~= track_part + albums@.take(i + 1 as int).map_values(
                |a: Album| album_choice(a),
            ));
        }
        i += 1;
    }
    proof {
        assert(g@ == track_part + album_part);
    }

    let mut i: usize = 0;
    while i < artist_count
        invariant
            artist_count <= artists@.len(),
            i <= artist_count,
            g@ == track_part + album_part + artists@.take(i as int).map_values(
                |a: Artist| artist_choice(a),
            ),
        decreases artist_count - i,
    {
        g.push(Choice { kind: ChoiceKind::Artist, id: artists[i].id.clone() });
        proof {
            assert(g@ =~= track_part + album_part + artists@.take(i + 1 as int).map_values(
                |a: Artist| artist_choice(a),
            ));
        }
        i += 1;
    }
    proof {
        assert(g@ == spec_group(tracks@, albums@, artists@));
    }
    g
}


/// The candidate items of one optional section of a search response; an
/// absent section offers nothing.
pub open spec fn section_items<T>(section: Option<Items<T>>) -> Seq<T> {
    match section {
        Some(items) => items.items@,
        None => Seq::empty(),
    }
}

/// Builds the choice list of one group straight from a search response:
/// an absent candidate section counts as empty rather than aborting the
/// line.
pub fn build_group_from_response(response: &SpotifySearchResponse) -> (g: Vec<Choice>)
    ensures
        g@ == spec_group(
            section_items(response.tracks),
            section_items(response.albums),
            section_items(response.artists),
        ),
{
    let empty_tracks: Vec<Track> = Vec::new();
    let empty_albums: Vec<Album> = Vec::new();
    let empty_artists: Vec<Artist> = Vec::new();
    let tracks = match &response.tracks {
        Some(items) => &items.items,
        None => &empty_tracks,
    };
    let albums = match &response.albums {
        Some(items) => &items.items,
        None => &empty_albums,
    };
    let artists = match &response.artists {
        Some(items) => &items.items,
        None => &empty_artists,
    };
    build_group(tracks, albums, artists)
}

/// Builds the choice list of one group from the feeds a podcast query
/// returned: each feed becomes one podcast choice, in provider order,
/// identified by the feed identifier rendered in decimal.
pub fn build_podcast_group(feeds: &Vec<PodcastFeed>) -> (g: Vec<Choice>)
    ensures
        g@.len() == feeds@.len(),
        forall|i: int|
            0 <= i < feeds@.len() ==> (#[trigger] g@[i]).kind == ChoiceKind::Podcast && g@[i].id@
                == spec_idigits(feeds@[i].id as int),
{
    let mut g: Vec<Choice> = Vec::new();
    let mut i: usize = 0;
    while i < feeds.len()
        invariant
            i <= feeds@.len(),
            g@.len() == i,
            forall|j: int|
                0 <= j < i ==> (#[trigger] g@[j]).kind == ChoiceKind::Podcast && g@[j].id@
                    == spec_idigits(feeds@[j].id as int),
        decreases feeds@.len() - i,
    {
        let id = i64_string(feeds[i].id);
        g.push(Choice { kind: ChoiceKind::Podcast, id });
        i += 1;
    }
    g
}

/// The caller-presentable line for a track choice.
pub fn render_track(t: &Track) -> (r: String)
    requires
        t.album.artists@.len() >= 1,
    ensures
        r@ == "Track: "@ + t.name@ + " - "@ + t.album.artists@[0].name@ + " ["@ + t.album.name@
            + "]"@,
{
    let mut r = String::from_str("Track: ");
    r.append(t.name.as_str());
    r.append(" - ");
    r.append(t.album.artists[0].name.as_str());
    r.append(" [");
    r.append(t.album.name.as_str());
    r.append("]");
    r
}

/// The caller-presentable line for an album choice.
pub fn render_album(a: &Album) -> (r: String)
    requires
        a.artists@.len() >= 1,
    ensures
        r@ == "Album: "@ + a.name@ + " - "@ + a.artists@[0].name@,
{
    let mut r = String::from_str("Album: ");
    r.append(a.name.as_str());
    r.append(" - ");
    r.append(a.artists[0].name.as_str());
    r
}

/// The caller-presentable line for an artist choice.
pub fn render_artist(a: &Artist) -> (r: String)
    ensures
        r@ == "Artist: "@ + a.name@,
{
    let mut r = String::from_str("Artist: ");
    r.append(a.name.as_str());
    r
}

/// One group's preview lines joined with the `|||` separator between
/// each pair.
pub open spec fn spec_preview_join(lines: Seq<Seq<char>>) -> Seq<char>
    decreases lines.len(),
{
    if lines.len() == 0 {
        Seq::empty()
    } else if lines.len() == 1 {
        lines[0]
    } else {
        spec_preview_join(lines.drop_last()) + seq!['|', '|', '|'] + lines.last()
    }
}

/// Joins one group's preview lines into the single string handed back
/// to the requester.
pub fn join_preview(lines: &Vec<String>) -> (r: String)
    ensures
        r@ == spec_preview_join(lines@.map_values(|s: String| s@)),
{
    let ghost all = lines@.map_values(|s: String| s@);
    let mut r = String::new();
    let mut i: usize = 0;
    proof {
        reveal_strlit("|||");
        assert(("|||")@ =~= seq!['|', '|', '|']);
    }
    while i < lines.len()
        invariant
            i <= lines@.len(),
            all == lines@.map_values(|s: String| s@),
            all.len() == lines@.len(),
            r@ == spec_preview_join(all.take(i as int)),
            ("|||")@ == seq!['|', '|', '|'],
        decreases lines@.len() - i,
    {
        if i > 0 {
            r.append("|||");
        }
        r.append(lines[i].as_str());
        proof {
            let prev = all.take(i as int);
            let cur = all.take(i + 1 as int);
            assert(cur.drop_last() =~= prev);
            assert(cur.last() == all[i as int]);
            assert(all[i as int] == lines@[i as int]@);
            assert(r@ =~= spec_preview_join(cur));
        }
        i += 1;
    }
    proof {
        assert(all.take(all.len() as int) =~= all);
    }
    r
}

} // verus!
