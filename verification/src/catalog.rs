//! Plain shapes of what the catalog gateways return: ranked search
//! candidates, album and artist listing pages, and podcast feeds and
//! episodes. The transport layer decodes provider responses into these
//! values before they reach the core.

use vstd::prelude::*;

verus! {

/// One artist candidate from a music search or an album's credits.
#[derive(Debug)]
pub struct Artist {
    pub id: String,
    pub name: String,
}

/// One album candidate from a music search.
#[derive(Debug)]
pub struct Album {
    pub id: String,
    pub release_date: String,
    pub name: String,
    pub artists: Vec<Artist>,
}

/// One track candidate from a music search.
#[derive(Debug)]
pub struct Track {
    pub id: String,
    pub name: String,
    pub album: Album,
}

/// One entry of an album's paginated track listing.
#[derive(Debug)]
pub struct AlbumTrack {
    pub id: String,
    pub name: String,
}

/// One entry of an artist's paginated album listing.
#[derive(Debug)]
pub struct ArtistAlbum {
    pub id: String,
    pub name: String,
}

/// A page of listing items, in provider-ranked order.
#[derive(Debug)]
pub struct Items<T> {
    pub items: Vec<T>,
}

/// The three ranked candidate lists a music search yields.
#[derive(Debug)]
pub struct SpotifySearchResponse {
    pub tracks: Option<Items<Track>>,
    pub albums: Option<Items<Album>>,
    pub artists: Option<Items<Artist>>,
}

/// One podcast feed returned by a podcast search.
#[derive(Debug)]
pub struct PodcastFeed {
    pub id: i64,
    pub title: String,
    pub author: String,
    pub description: String,
    pub url: String,
    pub artwork: String,
}

/// The feeds a podcast search yields, in provider order.
#[derive(Debug)]
pub struct PodcastSearchResult {
    pub feeds: Vec<PodcastFeed>,
}

/// A single podcast feed looked up by identifier.
#[derive(Debug)]
pub struct PodcastInfo {
    pub feed: PodcastFeed,
}

/// One episode of a podcast feed.
#[derive(Debug)]
pub struct Episode {
    pub id: i64,
    pub title: String,
    pub link: String,
    pub description: String,
    pub enclosure_url: String,
}

/// The episodes fetched for one feed, in provider order.
#[derive(Debug)]
pub struct PodcastEpisodes {
    pub items: Vec<Episode>,
}

impl Clone for Artist {
    fn clone(&self) -> (r: Self)
        ensures
            r == *self,
    {
        Artist { id: self.id.clone(), name: self.name.clone() }
    }
}

impl Clone for AlbumTrack {
    fn clone(&self) -> (r: Self)
        ensures
            r == *self,
    {
        AlbumTrack { id: self.id.clone(), name: self.name.clone() }
    }
}

impl Clone for ArtistAlbum {
    fn clone(&self) -> (r: Self)
        ensures
            r == *self,
    {
        ArtistAlbum { id: self.id.clone(), name: self.name.clone() }
    }
}

} // verus!
